use ecs_core::commit::{UpdatePatch, commit};
use ecs_core::components::{
    AccelerationComponent, CameraComponent, ComponentKind, ComponentValue, PositionComponent,
    RenderComponent, SettingsComponent, VelocityComponent, KEY_ARROW_DOWN, KEY_ARROW_LEFT,
    KEY_ARROW_RIGHT, KEY_ARROW_UP,
};
use ecs_core::init::Initializer;
use ecs_core::shape::{Conjunction, MatchedBundle, Shape, match_shape};
use ecs_core::store::World;
use ecs_core::tick::{TickContext, TickEvent};

fn kinds(ks: &[ComponentKind]) -> Vec<ComponentKind> {
    ks.to_vec()
}

fn conj(required: &[ComponentKind], optional: &[ComponentKind]) -> Conjunction {
    Conjunction { required: kinds(required), optional: kinds(optional) }
}

#[test]
fn fresh_entities_get_distinct_handles_and_no_components() {
    let mut w = World::new();
    assert_eq!(w.entity_count(), 0);
    let a = w.create_entity();
    let b = w.create_entity();
    assert_ne!(a, b);
    assert_eq!(w.entity_count(), 2);
    assert!(!w.has_component(a, ComponentKind::Position));
    assert_eq!(w.get_position(a), None);
}

#[test]
fn set_inserts_and_overwrites_whole_values() {
    let mut w = World::new();
    let e = w.create_entity();
    w.set_component(e, ComponentValue::Position(PositionComponent { x: 1, y: 2 }));
    assert_eq!(w.get_position(e), Some(PositionComponent { x: 1, y: 2 }));
    w.set_component(e, ComponentValue::Position(PositionComponent { x: 7, y: -3 }));
    assert_eq!(w.get_position(e), Some(PositionComponent { x: 7, y: -3 }));
    assert_eq!(w.get_velocity(e), None);
}

#[test]
fn component_set_insertion_writes_each_kind_last_wins() {
    let mut w = World::new();
    let e = w.create_entity();
    let comps = vec![
        ComponentValue::Position(PositionComponent { x: 1, y: 1 }),
        ComponentValue::Velocity(VelocityComponent { x: 2, y: 2 }),
        ComponentValue::Position(PositionComponent { x: 9, y: 9 }),
    ];
    w.insert_component_set(e, &comps);
    assert_eq!(w.get_position(e), Some(PositionComponent { x: 9, y: 9 }));
    assert_eq!(w.get_velocity(e), Some(VelocityComponent { x: 2, y: 2 }));
    assert_eq!(w.get_acceleration(e), None);
}

#[test]
fn required_only_shape_membership_is_exact_presence() {
    let mut w = World::new();
    let both = w.create_entity();
    w.set_component(both, ComponentValue::Position(PositionComponent { x: 0, y: 0 }));
    w.set_component(both, ComponentValue::Velocity(VelocityComponent { x: 0, y: 0 }));
    let only_pos = w.create_entity();
    w.set_component(only_pos, ComponentValue::Position(PositionComponent { x: 0, y: 0 }));
    let only_vel = w.create_entity();
    w.set_component(only_vel, ComponentValue::Velocity(VelocityComponent { x: 0, y: 0 }));
    let neither = w.create_entity();
    let _ = neither;

    let s = Shape::Conj(conj(&[ComponentKind::Position, ComponentKind::Velocity], &[]));
    let m = match_shape(&w, &s);
    assert_eq!(m.len(), 1);
    assert_eq!(m[0].entity, both);
}

#[test]
fn optional_slot_present_iff_component_held_and_never_excludes() {
    let mut w = World::new();
    let with_acc = w.create_entity();
    w.set_component(with_acc, ComponentValue::Position(PositionComponent { x: 0, y: 0 }));
    w.set_component(with_acc, ComponentValue::Acceleration(AccelerationComponent { x: 4, y: 5 }));
    let without_acc = w.create_entity();
    w.set_component(without_acc, ComponentValue::Position(PositionComponent { x: 0, y: 0 }));

    let s = Shape::Conj(conj(&[ComponentKind::Position], &[ComponentKind::Acceleration]));
    let m = match_shape(&w, &s);
    assert_eq!(m.len(), 2);
    match &m[0].bundle {
        MatchedBundle::Sole(b) => {
            assert_eq!(b.acceleration, Some(AccelerationComponent { x: 4, y: 5 }));
        },
        _ => panic!("expected a sole bundle"),
    }
    match &m[1].bundle {
        MatchedBundle::Sole(b) => assert_eq!(b.acceleration, None),
        _ => panic!("expected a sole bundle"),
    }
}

#[test]
fn unmentioned_kinds_stay_out_of_the_bundle() {
    let mut w = World::new();
    let e = w.create_entity();
    w.set_component(e, ComponentValue::Position(PositionComponent { x: 1, y: 1 }));
    w.set_component(e, ComponentValue::Velocity(VelocityComponent { x: 2, y: 2 }));
    let s = Shape::Conj(conj(&[ComponentKind::Position], &[]));
    let m = match_shape(&w, &s);
    assert_eq!(m.len(), 1);
    match &m[0].bundle {
        MatchedBundle::Sole(b) => {
            assert_eq!(b.position, Some(PositionComponent { x: 1, y: 1 }));
            assert_eq!(b.velocity, None);
        },
        _ => panic!("expected a sole bundle"),
    }
}

#[test]
fn alternation_prefers_left_even_when_right_also_matches() {
    let mut w = World::new();
    let e = w.create_entity();
    w.set_component(
        e,
        ComponentValue::Render(RenderComponent { tex_id: 1, tex_w: 8, tex_h: 8, depth: 0 }),
    );
    w.set_component(e, ComponentValue::Position(PositionComponent { x: 3, y: 4 }));
    w.set_component(e, ComponentValue::Camera(CameraComponent));

    let s = Shape::Alt(
        conj(&[ComponentKind::Render, ComponentKind::Position], &[]),
        conj(&[ComponentKind::Position, ComponentKind::Camera], &[]),
    );
    let m = match_shape(&w, &s);
    assert_eq!(m.len(), 1);
    match &m[0].bundle {
        MatchedBundle::Left(b) => {
            assert_eq!(b.position, Some(PositionComponent { x: 3, y: 4 }));
        },
        _ => panic!("left alternative must win"),
    }
}

#[test]
fn alternation_falls_back_to_right() {
    let mut w = World::new();
    let e = w.create_entity();
    w.set_component(e, ComponentValue::Position(PositionComponent { x: 3, y: 4 }));
    w.set_component(e, ComponentValue::Camera(CameraComponent));
    let s = Shape::Alt(
        conj(&[ComponentKind::Render, ComponentKind::Position], &[]),
        conj(&[ComponentKind::Position, ComponentKind::Camera], &[]),
    );
    let m = match_shape(&w, &s);
    assert_eq!(m.len(), 1);
    assert!(matches!(m[0].bundle, MatchedBundle::Right(_)));
}

#[test]
fn matching_twice_without_commit_is_identical() {
    let mut w = World::new();
    for i in 0..5 {
        let e = w.create_entity();
        if i % 2 == 0 {
            w.set_component(e, ComponentValue::Position(PositionComponent { x: i, y: i }));
        }
        w.set_component(e, ComponentValue::Velocity(VelocityComponent { x: 1, y: 0 }));
    }
    let s = Shape::Conj(conj(
        &[ComponentKind::Position],
        &[ComponentKind::Velocity, ComponentKind::Acceleration],
    ));
    let m1 = match_shape(&w, &s);
    let m2 = match_shape(&w, &s);
    assert_eq!(m1, m2);
}

#[test]
fn commit_applies_each_patch_exactly_and_touches_nothing_else() {
    let mut w = World::new();
    let e1 = w.create_entity();
    let e2 = w.create_entity();
    let e3 = w.create_entity();
    for &e in &[e1, e2, e3] {
        w.set_component(e, ComponentValue::Position(PositionComponent { x: 0, y: 0 }));
        w.set_component(e, ComponentValue::Velocity(VelocityComponent { x: 1, y: 1 }));
    }
    let patches = vec![
        (
            e1,
            UpdatePatch {
                writes: vec![ComponentValue::Position(PositionComponent { x: 10, y: 0 })],
                signal: 0,
            },
        ),
        (
            e2,
            UpdatePatch {
                writes: vec![
                    ComponentValue::Position(PositionComponent { x: 20, y: 0 }),
                    ComponentValue::Velocity(VelocityComponent { x: 5, y: 5 }),
                ],
                signal: 7,
            },
        ),
    ];
    commit(&mut w, &patches);
    assert_eq!(w.get_position(e1), Some(PositionComponent { x: 10, y: 0 }));
    assert_eq!(w.get_velocity(e1), Some(VelocityComponent { x: 1, y: 1 }));
    assert_eq!(w.get_position(e2), Some(PositionComponent { x: 20, y: 0 }));
    assert_eq!(w.get_velocity(e2), Some(VelocityComponent { x: 5, y: 5 }));
    assert_eq!(w.get_position(e3), Some(PositionComponent { x: 0, y: 0 }));
    assert_eq!(w.get_velocity(e3), Some(VelocityComponent { x: 1, y: 1 }));
}

#[test]
fn commit_of_no_patches_changes_nothing() {
    let mut w = World::new();
    let e = w.create_entity();
    w.set_component(e, ComponentValue::Position(PositionComponent { x: 5, y: 6 }));
    commit(&mut w, &Vec::new());
    assert_eq!(w.get_position(e), Some(PositionComponent { x: 5, y: 6 }));
    assert_eq!(w.entity_count(), 1);
}

#[test]
fn initializer_runs_its_script_exactly_once() {
    let script = vec![
        vec![
            ComponentValue::Position(PositionComponent { x: 1, y: 2 }),
            ComponentValue::Velocity(VelocityComponent { x: 3, y: 4 }),
        ],
        vec![ComponentValue::Settings(SettingsComponent::default())],
    ];
    let mut boot = Initializer::new(script);
    let mut w = World::new();
    let ctx = TickContext { event: TickEvent::Idle };
    boot.update_all(&mut w, &ctx);
    assert_eq!(w.entity_count(), 2);
    boot.update_all(&mut w, &ctx);
    boot.update_all(&mut w, &TickContext { event: TickEvent::Update { dt: 9 } });
    assert_eq!(w.entity_count(), 2);
    assert!(matches!(boot, Initializer::Initialized));
    let m = match_shape(&w, &Shape::Conj(conj(&[ComponentKind::Position], &[])));
    assert_eq!(m.len(), 1);
    assert_eq!(w.get_velocity(m[0].entity), Some(VelocityComponent { x: 3, y: 4 }));
}

#[test]
fn default_key_bindings_are_the_arrow_keys() {
    let s = SettingsComponent::default();
    assert_eq!(s.up, KEY_ARROW_UP);
    assert_eq!(s.down, KEY_ARROW_DOWN);
    assert_eq!(s.left, KEY_ARROW_LEFT);
    assert_eq!(s.right, KEY_ARROW_RIGHT);
}

#[test]
fn saturating_arithmetic_clamps_at_the_ends() {
    assert_eq!(ecs_core::arith::sat_add(i64::MAX, 1), i64::MAX);
    assert_eq!(ecs_core::arith::sat_add(i64::MIN, -1), i64::MIN);
    assert_eq!(ecs_core::arith::sat_sub(0, i64::MIN), i64::MAX);
    assert_eq!(ecs_core::arith::sat_mul(i64::MAX, 2), i64::MAX);
    assert_eq!(ecs_core::arith::sat_mul(i64::MAX, -2), i64::MIN);
    assert_eq!(ecs_core::arith::sat_mul(1000, -1000), -1_000_000);
}

#[test]
fn matching_an_empty_world_yields_an_empty_result() {
    let w = World::new();
    let s = Shape::Conj(conj(&[ComponentKind::Position], &[ComponentKind::Scale]));
    assert!(match_shape(&w, &s).is_empty());
}

#[test]
fn later_patch_for_the_same_slot_wins_within_one_commit() {
    let mut w = World::new();
    let e = w.create_entity();
    w.set_component(e, ComponentValue::Position(PositionComponent { x: 0, y: 0 }));
    let patches = vec![
        (
            e,
            UpdatePatch {
                writes: vec![ComponentValue::Position(PositionComponent { x: 1, y: 1 })],
                signal: 0,
            },
        ),
        (
            e,
            UpdatePatch {
                writes: vec![ComponentValue::Position(PositionComponent { x: 2, y: 2 })],
                signal: 0,
            },
        ),
    ];
    commit(&mut w, &patches);
    assert_eq!(w.get_position(e), Some(PositionComponent { x: 2, y: 2 }));
}
