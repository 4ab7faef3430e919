use ecs_core::components::{
    AccelerationComponent, CameraComponent, ComponentValue, PositionComponent, RenderComponent,
    ScaleComponent, VelocityComponent,
};
use ecs_core::init::Initializer;
use ecs_core::movement::MovementSystem;
use ecs_core::render::{DrawCommand, RenderSystem};
use ecs_core::scheduler::{Scheduler, SystemSlot};
use ecs_core::shape::match_shape;
use ecs_core::store::World;
use ecs_core::tick::{TickContext, TickEvent};

fn mover(x: i64, y: i64, vx: i64, vy: i64) -> Vec<ComponentValue> {
    vec![
        ComponentValue::Position(PositionComponent { x, y }),
        ComponentValue::Velocity(VelocityComponent { x: vx, y: vy }),
    ]
}

#[test]
fn one_update_tick_integrates_position_with_zero_acceleration_default() {
    let mut w = World::new();
    let e = w.create_entity();
    w.insert_component_set(e, &mover(0, 0, 5, 0));
    let mut sched = Scheduler::new(vec![SystemSlot::Movement]);
    let cmds = sched.tick(&mut w, &TickContext { event: TickEvent::Update { dt: 2 } });
    assert!(cmds.is_empty());
    assert_eq!(w.get_position(e), Some(PositionComponent { x: 10, y: 0 }));
    assert_eq!(w.get_velocity(e), Some(VelocityComponent { x: 5, y: 0 }));
}

#[test]
fn one_update_tick_uses_pre_update_velocity_and_integrates_acceleration() {
    let mut w = World::new();
    let e = w.create_entity();
    let mut comps = mover(0, 0, 5, 0);
    comps.push(ComponentValue::Acceleration(AccelerationComponent { x: -1, y: 0 }));
    w.insert_component_set(e, &comps);
    let mut sched = Scheduler::new(vec![SystemSlot::Movement]);
    sched.tick(&mut w, &TickContext { event: TickEvent::Update { dt: 2 } });
    assert_eq!(w.get_position(e), Some(PositionComponent { x: 10, y: 0 }));
    assert_eq!(w.get_velocity(e), Some(VelocityComponent { x: 3, y: 0 }));
}

#[test]
fn render_draws_clear_then_depth_ascending_with_default_camera() {
    let mut w = World::new();
    let back = w.create_entity();
    w.insert_component_set(
        back,
        &vec![
            ComponentValue::Render(RenderComponent { tex_id: 11, tex_w: 16, tex_h: 8, depth: 1 }),
            ComponentValue::Position(PositionComponent { x: 7, y: 9 }),
        ],
    );
    let front = w.create_entity();
    w.insert_component_set(
        front,
        &vec![
            ComponentValue::Render(RenderComponent { tex_id: 22, tex_w: 4, tex_h: 4, depth: 0 }),
            ComponentValue::Position(PositionComponent { x: 1, y: 2 }),
        ],
    );
    let mut sched = Scheduler::new(vec![SystemSlot::Render]);
    let cmds = sched.tick(&mut w, &TickContext {
        event: TickEvent::Render { width: 100, height: 60 },
    });
    // No camera entity: the camera defaults to the origin, so the offset is
    // (0 - 50, 0 - 30) and every destination is shifted by (+50, +30).
    assert_eq!(cmds.len(), 3);
    assert_eq!(cmds[0], DrawCommand::Clear);
    assert_eq!(
        cmds[1],
        DrawCommand::Image {
            tex_id: 22,
            src_x: 0,
            src_y: 0,
            src_w: 4,
            src_h: 4,
            dest_x: 51,
            dest_y: 32,
            dest_w: 4,
            dest_h: 4,
        },
    );
    assert_eq!(
        cmds[2],
        DrawCommand::Image {
            tex_id: 11,
            src_x: 0,
            src_y: 0,
            src_w: 16,
            src_h: 8,
            dest_x: 57,
            dest_y: 39,
            dest_w: 16,
            dest_h: 8,
        },
    );
}

#[test]
fn render_centers_the_camera_and_applies_clip_and_scale() {
    let mut w = World::new();
    let e = w.create_entity();
    w.insert_component_set(
        e,
        &vec![
            ComponentValue::Render(RenderComponent { tex_id: 5, tex_w: 200, tex_h: 100, depth: 0 }),
            ComponentValue::Position(PositionComponent { x: 30, y: 40 }),
            ComponentValue::Clip(ecs_core::components::ClipComponent { x: 100, y: 160, w: 120, h: 120 }),
            ComponentValue::Scale(ScaleComponent { percent: 200 }),
        ],
    );
    let cam = w.create_entity();
    w.insert_component_set(
        cam,
        &vec![
            ComponentValue::Position(PositionComponent { x: 10, y: 20 }),
            ComponentValue::Camera(CameraComponent),
        ],
    );
    let mut sched = Scheduler::new(vec![SystemSlot::Render]);
    let cmds = sched.tick(&mut w, &TickContext {
        event: TickEvent::Render { width: 100, height: 60 },
    });
    // Offset is camera minus half the viewport: (10 - 50, 20 - 30) = (-40, -10).
    assert_eq!(cmds.len(), 2);
    assert_eq!(
        cmds[1],
        DrawCommand::Image {
            tex_id: 5,
            src_x: 100,
            src_y: 160,
            src_w: 120,
            src_h: 120,
            dest_x: 70,
            dest_y: 50,
            dest_w: 240,
            dest_h: 240,
        },
    );
}

#[test]
fn non_update_event_yields_zero_patches_from_the_movement_system() {
    let mut w = World::new();
    let e = w.create_entity();
    w.insert_component_set(e, &mover(3, 4, 5, 6));
    let batch = match_shape(&w, &MovementSystem::shape());
    assert_eq!(batch.len(), 1);
    let out = MovementSystem::update(&batch, &TickContext {
        event: TickEvent::Render { width: 10, height: 10 },
    });
    assert!(out.is_empty());
    // Through the scheduler the world is untouched too.
    let mut sched = Scheduler::new(vec![SystemSlot::Movement]);
    sched.tick(&mut w, &TickContext { event: TickEvent::Idle });
    assert_eq!(w.get_position(e), Some(PositionComponent { x: 3, y: 4 }));
    assert_eq!(w.get_velocity(e), Some(VelocityComponent { x: 5, y: 6 }));
}

#[test]
fn non_render_event_issues_no_draw_calls() {
    let mut w = World::new();
    let e = w.create_entity();
    w.insert_component_set(
        e,
        &vec![
            ComponentValue::Render(RenderComponent { tex_id: 1, tex_w: 2, tex_h: 2, depth: 0 }),
            ComponentValue::Position(PositionComponent { x: 0, y: 0 }),
        ],
    );
    let batch = match_shape(&w, &RenderSystem::shape());
    let cmds = RenderSystem::update(&batch, &TickContext { event: TickEvent::Update { dt: 1 } });
    assert!(cmds.is_empty());
}

#[test]
fn a_full_tick_bootstraps_then_moves_then_draws() {
    // The wiring of a whole application: the bootstrap populates the world
    // on the first tick, and each later system of that same tick already
    // sees the committed state.
    let script = vec![
        {
            let mut c = mover(-40, -40, 5, 0);
            c.push(ComponentValue::Render(RenderComponent {
                tex_id: 0,
                tex_w: 300,
                tex_h: 300,
                depth: 1,
            }));
            c.push(ComponentValue::Clip(ecs_core::components::ClipComponent {
                x: 100,
                y: 160,
                w: 120,
                h: 120,
            }));
            c.push(ComponentValue::Scale(ScaleComponent { percent: 200 }));
            c.push(ComponentValue::Acceleration(AccelerationComponent { x: -5, y: 0 }));
            c
        },
        {
            let mut c = mover(-40, -40, 10, 0);
            c.push(ComponentValue::Render(RenderComponent {
                tex_id: 1,
                tex_w: 300,
                tex_h: 300,
                depth: 0,
            }));
            c.push(ComponentValue::Scale(ScaleComponent { percent: 50 }));
            c
        },
        {
            let mut c = mover(0, 0, 0, -10);
            c.push(ComponentValue::Camera(CameraComponent));
            c
        },
        vec![ComponentValue::Settings(ecs_core::components::SettingsComponent::default())],
    ];
    let mut sched = Scheduler::new(vec![
        SystemSlot::Init(Initializer::new(script)),
        SystemSlot::Movement,
        SystemSlot::Render,
    ]);
    let mut w = World::new();

    let cmds = sched.tick(&mut w, &TickContext { event: TickEvent::Update { dt: 1 } });
    assert!(cmds.is_empty());
    assert_eq!(w.entity_count(), 4);

    // The movement pass of the bootstrap tick already ran over the new world.
    let moved = ecs_core::components::EntityId { idx: 0 };
    assert_eq!(w.get_position(moved), Some(PositionComponent { x: -35, y: -40 }));
    assert_eq!(w.get_velocity(moved), Some(VelocityComponent { x: 0, y: 0 }));

    // A second update tick: the bootstrap is spent and creates nothing further.
    sched.tick(&mut w, &TickContext { event: TickEvent::Update { dt: 1 } });
    assert_eq!(w.entity_count(), 4);
    assert_eq!(w.get_position(moved), Some(PositionComponent { x: -35, y: -40 }));
    assert_eq!(w.get_velocity(moved), Some(VelocityComponent { x: -5, y: 0 }));

    // A render tick draws the lower depth first, shifted by the camera.
    let cmds = sched.tick(&mut w, &TickContext {
        event: TickEvent::Render { width: 512, height: 512 },
    });
    assert_eq!(cmds.len(), 3);
    assert_eq!(cmds[0], DrawCommand::Clear);
    match cmds[1] {
        DrawCommand::Image { tex_id, .. } => assert_eq!(tex_id, 1),
        _ => panic!("expected an image draw"),
    }
    match cmds[2] {
        DrawCommand::Image { tex_id, .. } => assert_eq!(tex_id, 0),
        _ => panic!("expected an image draw"),
    }
}

#[test]
fn equal_depths_both_draw_after_the_clear() {
    let mut w = World::new();
    for id in [7u64, 8u64] {
        let e = w.create_entity();
        w.insert_component_set(
            e,
            &vec![
                ComponentValue::Render(RenderComponent { tex_id: id, tex_w: 1, tex_h: 1, depth: 3 }),
                ComponentValue::Position(PositionComponent { x: 0, y: 0 }),
            ],
        );
    }
    let mut sched = Scheduler::new(vec![SystemSlot::Render]);
    let cmds = sched.tick(&mut w, &TickContext {
        event: TickEvent::Render { width: 2, height: 2 },
    });
    assert_eq!(cmds.len(), 3);
    assert_eq!(cmds[0], DrawCommand::Clear);
    let mut ids: Vec<u64> = cmds[1..]
        .iter()
        .map(|c| match c {
            DrawCommand::Image { tex_id, .. } => *tex_id,
            DrawCommand::Clear => panic!("only one clear is issued"),
        })
        .collect();
    ids.sort();
    assert_eq!(ids, vec![7, 8]);
}

#[test]
fn resize_and_input_events_are_inert_for_every_system() {
    let mut w = World::new();
    let e = w.create_entity();
    w.insert_component_set(e, &mover(1, 2, 3, 4));
    let mut sched = Scheduler::new(vec![SystemSlot::Movement, SystemSlot::Render]);
    let c1 = sched.tick(&mut w, &TickContext {
        event: TickEvent::Resize { width: 640, height: 480 },
    });
    let c2 = sched.tick(&mut w, &TickContext {
        event: TickEvent::Input { key: ecs_core::components::KEY_ARROW_UP, pressed: true },
    });
    assert!(c1.is_empty() && c2.is_empty());
    assert_eq!(w.get_position(e), Some(PositionComponent { x: 1, y: 2 }));
    assert_eq!(w.get_velocity(e), Some(VelocityComponent { x: 3, y: 4 }));
}
