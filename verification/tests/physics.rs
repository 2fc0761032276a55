use cgmath::{Basis2, One, Point2, Vector2};
use ggez_specs_hello_world::entities::create_scene;
use ggez_specs_hello_world::scheduler::{clamp_tick, pipeline, Stage};
use ggez_specs_hello_world::store::{join, Query};
use ggez_specs_hello_world::systems::{ControlSystem, Keycode, Mode, MoveSystem, Pose};
use rhusics_core::{Pose as BodyPlace, RigidBody};
use rhusics_ecs::collide2d::{
    BodyPose2, BroadBruteForce2, CollisionMode, CollisionShape2, CollisionStrategy, GJK2,
};
use rhusics_ecs::physics2d::{
    ContactEvent2, ContactResolutionSystem2, CurrentFrameUpdateSystem2, ForceAccumulator2, Mass2,
    NextFrameSetupSystem2, Rectangle, RigidBodyParts2, SpatialCollisionSystem2,
    SpatialSortingSystem2, Velocity2,
};
use rhusics_ecs::DeltaTime;
use shrev::EventChannel;
use specs::{Dispatcher, DispatcherBuilder, Join, System, World};

fn engine<'a, 'b>(world: &mut World) -> Dispatcher<'a, 'b> {
    let mut solver = CurrentFrameUpdateSystem2::<f32, BodyPose2<f32>>::new();
    let mut next_frame = NextFrameSetupSystem2::<f32, BodyPose2<f32>>::new();
    let mut sort = SpatialSortingSystem2::<f32, BodyPose2<f32>, ()>::new();
    let mut collide = SpatialCollisionSystem2::<f32, BodyPose2<f32>, ()>::new()
        .with_broad_phase(BroadBruteForce2::default())
        .with_narrow_phase(GJK2::new());
    let mut resolution = ContactResolutionSystem2::<f32, BodyPose2<f32>>::new();
    solver.setup(&mut world.res);
    next_frame.setup(&mut world.res);
    sort.setup(&mut world.res);
    collide.setup(&mut world.res);
    resolution.setup(&mut world.res);
    world
        .write_resource::<EventChannel<ContactEvent2<f32>>>()
        .register_reader();
    let names = |stage: Stage| -> Vec<&'static str> {
        stage.dependencies().into_iter().map(|needed| needed.name()).collect()
    };
    let order = pipeline();
    assert_eq!(order.len(), 6);
    DispatcherBuilder::new()
        .with(solver, order[1].name(), &names(order[1]))
        .with(next_frame, order[2].name(), &names(order[2]))
        .with(sort, order[3].name(), &names(order[3]))
        .with(collide, order[4].name(), &names(order[4]))
        .with(resolution, order[5].name(), &names(order[5]))
        .build()
}

fn attach_bodies(world: &mut World) {
    for (id, parts) in join(world, Query { square: true, velocity: false, control: false }) {
        let square = parts.square.unwrap();
        let entity = world.entities().entity(id);
        let shape = CollisionShape2::<f32, BodyPose2<f32>, ()>::new_simple(
            CollisionStrategy::FullResolution,
            CollisionMode::Discrete,
            Rectangle::new(square.width as f32, square.height as f32).into(),
        );
        let pose = BodyPose2::new(Point2::new(square.x as f32, square.y as f32), Basis2::one());
        let mut bodies = RigidBodyParts2::<f32, BodyPose2<f32>, ()>::new(world);
        match parts.velocity {
            Some(velocity) => bodies
                .dynamic_body(
                    entity,
                    shape,
                    pose,
                    Velocity2::new(Vector2::new(velocity.x as f32, velocity.y as f32), 0.0),
                    RigidBody::default(),
                    Mass2::new(1.),
                )
                .unwrap(),
            None => bodies
                .static_body(entity, shape, pose, RigidBody::default(), Mass2::new(1.))
                .unwrap(),
        }
    }
}

fn tick(world: &mut World, dispatcher: &mut Dispatcher) {
    world.write_resource::<DeltaTime<f32>>().delta_seconds =
        clamp_tick(0, 20_000_000) as f32 / 1_000_000_000.0;
    let poses: Vec<Pose> = (&*world.entities(), &world.read_storage::<BodyPose2<f32>>())
        .join()
        .map(|(entity, pose)| Pose {
            entity: entity.id(),
            x: pose.position().x.round() as i32,
            y: pose.position().y.round() as i32,
        })
        .collect();
    MoveSystem.sync(world, &poses);
    for force in MoveSystem.run(world, Mode::Physics) {
        let entity = world.entities().entity(force.entity);
        let mut accumulators = world.write_storage::<ForceAccumulator2<f32>>();
        accumulators
            .get_mut(entity)
            .unwrap()
            .add_force(Vector2::new(force.x as f32, force.y as f32));
    }
    dispatcher.dispatch(&world.res);
    world.maintain();
}

fn place_of(world: &World, id: u32) -> Point2<f32> {
    let entity = world.entities().entity(id);
    world.read_storage::<BodyPose2<f32>>().get(entity).unwrap().position()
}

#[test]
fn the_physics_engine_runs_on_the_scene() {
    let mut world = create_scene();
    let mut dispatcher = engine(&mut world);
    attach_bodies(&mut world);
    assert_eq!(place_of(&world, 0), Point2::new(70.0, 70.0));
    assert_eq!(place_of(&world, 2), Point2::new(100.0, 400.0));
    for _ in 0..10 {
        tick(&mut world, &mut dispatcher);
    }
    assert_eq!(place_of(&world, 0), Point2::new(70.0, 70.0));
    assert_eq!(place_of(&world, 2), Point2::new(100.0, 400.0));
    assert!(place_of(&world, 1).x > 200.0);
}

#[test]
fn a_held_right_key_pushes_the_player_to_the_right() {
    let mut world = create_scene();
    let mut dispatcher = engine(&mut world);
    attach_bodies(&mut world);
    ControlSystem::new(Keycode::Right, true).run(&mut world);
    for _ in 0..10 {
        tick(&mut world, &mut dispatcher);
    }
    let player = place_of(&world, 2);
    assert!(player.x > 100.0);
    assert_eq!(player.y, 400.0);
    let squares = join(&mut world, Query { square: true, velocity: false, control: true });
    let square = squares[0].1.square.unwrap();
    assert!(square.x >= 100);
    assert_eq!(square.y, 400);
    assert_eq!((square.width, square.height), (200, 100));
}
