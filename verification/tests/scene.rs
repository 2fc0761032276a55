use ggez_specs_hello_world::components::{Controllable, Square, Velocity};
use ggez_specs_hello_world::entities::{create_moving, create_player, create_scene, create_static};
use ggez_specs_hello_world::store::{is_registered, join, new_world, Parts, Query, MAX_ENTITIES};
use specs::{Builder, Join};

const ALL: Query = Query { square: false, velocity: false, control: false };
const CONTROLLED: Query = Query { square: false, velocity: false, control: true };

fn static_body() -> Parts {
    Parts {
        square: Some(Square { width: 100, height: 100, x: 70, y: 70 }),
        velocity: None,
        control: None,
    }
}

fn moving_body() -> Parts {
    Parts {
        square: Some(Square { width: 400, height: 100, x: 200, y: 200 }),
        velocity: Some(Velocity { x: 50, y: 50 }),
        control: None,
    }
}

fn player_body() -> Parts {
    Parts {
        square: Some(Square { width: 200, height: 100, x: 100, y: 400 }),
        velocity: Some(Velocity { x: 0, y: 0 }),
        control: Some(Controllable { x: 0, y: 0 }),
    }
}

#[test]
fn new_world_is_empty() {
    let mut world = new_world();
    assert_eq!(join(&mut world, ALL), vec![]);
    assert_eq!(world.entities().join().count(), 0);
}

#[test]
fn new_world_has_the_components_registered() {
    let world = new_world();
    assert_eq!(world.read_storage::<Square>().join().count(), 0);
    assert_eq!(world.read_storage::<Velocity>().join().count(), 0);
    assert_eq!(world.read_storage::<Controllable>().join().count(), 0);
}

#[test]
fn create_static_adds_a_square_only() {
    let mut world = new_world();
    create_static(&mut world);
    assert_eq!(join(&mut world, ALL), vec![(0, static_body())]);
}

#[test]
fn create_moving_adds_square_and_velocity() {
    let mut world = new_world();
    create_moving(&mut world);
    assert_eq!(join(&mut world, ALL), vec![(0, moving_body())]);
}

#[test]
fn create_player_adds_square_velocity_and_control() {
    let mut world = new_world();
    create_player(&mut world);
    assert_eq!(join(&mut world, ALL), vec![(0, player_body())]);
}

#[test]
fn each_factory_once_gives_three_entities() {
    let mut world = new_world();
    create_static(&mut world);
    create_moving(&mut world);
    create_player(&mut world);
    assert_eq!(
        join(&mut world, ALL),
        vec![(0, static_body()), (1, moving_body()), (2, player_body())]
    );
    assert_eq!(join(&mut world, CONTROLLED), vec![(2, player_body())]);
}

#[test]
fn create_scene_is_each_factory_once() {
    let mut world = create_scene();
    assert_eq!(
        join(&mut world, ALL),
        vec![(0, static_body()), (1, moving_body()), (2, player_body())]
    );
}

#[test]
fn create_player_twice_gives_two_controllable_entities() {
    let mut world = new_world();
    create_static(&mut world);
    create_moving(&mut world);
    create_player(&mut world);
    create_player(&mut world);
    assert_eq!(join(&mut world, ALL).len(), 4);
    assert_eq!(
        join(&mut world, CONTROLLED),
        vec![(2, player_body()), (3, player_body())]
    );
}

#[test]
fn factories_write_to_the_specs_storages() {
    let mut world = create_scene();
    let ids: Vec<u32> = world.entities().join().map(|entity| entity.id()).collect();
    assert_eq!(ids, vec![0, 1, 2]);
    let squares: Vec<Square> = world.read_storage::<Square>().join().copied().collect();
    assert_eq!(
        squares,
        vec![
            Square { width: 100, height: 100, x: 70, y: 70 },
            Square { width: 400, height: 100, x: 200, y: 200 },
            Square { width: 200, height: 100, x: 100, y: 400 },
        ]
    );
    let velocities: Vec<Velocity> = world.read_storage::<Velocity>().join().copied().collect();
    assert_eq!(velocities, vec![Velocity { x: 50, y: 50 }, Velocity { x: 0, y: 0 }]);
    let controls: Vec<Controllable> = world.read_storage::<Controllable>().join().copied().collect();
    assert_eq!(controls, vec![Controllable { x: 0, y: 0 }]);
    let player = world.entities().entity(2);
    assert!(world.read_storage::<Controllable>().get(player).is_some());
    assert!(world.is_alive(player));
    let _ = &mut world;
}

#[test]
fn join_reads_what_specs_holds() {
    let mut world = new_world();
    let entity = world.create_entity().build();
    world
        .write_storage::<Velocity>()
        .insert(entity, Velocity { x: -3, y: 9 })
        .unwrap();
    assert_eq!(
        join(&mut world, ALL),
        vec![(
            0,
            Parts { square: None, velocity: Some(Velocity { x: -3, y: 9 }), control: None }
        )]
    );
}

#[test]
fn join_yields_only_entities_with_all_requested_components() {
    let mut world = create_scene();
    let with_square = Query { square: true, velocity: false, control: false };
    let with_velocity = Query { square: false, velocity: true, control: false };
    let with_both = Query { square: true, velocity: true, control: false };
    let with_all = Query { square: true, velocity: true, control: true };
    assert_eq!(join(&mut world, with_square).len(), 3);
    assert_eq!(
        join(&mut world, with_velocity),
        vec![(1, moving_body()), (2, player_body())]
    );
    assert_eq!(
        join(&mut world, with_both),
        vec![(1, moving_body()), (2, player_body())]
    );
    assert_eq!(join(&mut world, with_all), vec![(2, player_body())]);
}

#[test]
fn join_skips_deleted_entities_and_reuses_their_index() {
    let mut world = create_scene();
    let moving = world.entities().entity(1);
    world.delete_entity(moving).unwrap();
    assert_eq!(
        join(&mut world, ALL),
        vec![(0, static_body()), (2, player_body())]
    );
    create_static(&mut world);
    assert_eq!(
        join(&mut world, ALL),
        vec![(0, static_body()), (1, static_body()), (2, player_body())]
    );
}

#[test]
fn query_matches_decides_by_component() {
    let query = Query { square: true, velocity: false, control: true };
    assert!(query.matches(&player_body()));
    assert!(!query.matches(&moving_body()));
    assert!(!query.matches(&Parts { square: None, velocity: None, control: None }));
    assert!(ALL.matches(&Parts { square: None, velocity: None, control: None }));
}

#[test]
fn is_registered_tells_a_new_world_from_a_bare_one() {
    let mut world = new_world();
    assert!(is_registered(&mut world));
    let mut bare = specs::World::new();
    assert!(!is_registered(&mut bare));
    bare.register::<Square>();
    bare.register::<Velocity>();
    assert!(!is_registered(&mut bare));
    bare.register::<Controllable>();
    assert!(is_registered(&mut bare));
    assert_eq!(join(&mut bare, ALL), vec![]);
}

#[test]
fn a_new_entity_carries_nothing_that_was_stored_at_its_index_before() {
    let mut world = new_world();
    let ahead = world.entities().entity(0);
    let stored = world
        .write_storage::<Velocity>()
        .insert(ahead, Velocity { x: 1, y: 1 });
    assert!(stored.is_ok());
    assert_eq!(join(&mut world, ALL), vec![]);
    create_static(&mut world);
    assert_eq!(join(&mut world, ALL), vec![(0, static_body())]);
}

#[test]
fn a_new_world_has_room_for_the_whole_range_of_indices() {
    assert_eq!(MAX_ENTITIES, 1 << 20);
    let mut world = new_world();
    let made = world.create_iter().take(MAX_ENTITIES - 1).count();
    assert_eq!(made, MAX_ENTITIES - 1);
    create_player(&mut world);
    assert_eq!(world.entities().join().count(), MAX_ENTITIES);
    assert_eq!(
        join(&mut world, CONTROLLED),
        vec![((MAX_ENTITIES - 1) as u32, player_body())]
    );
}

#[test]
fn a_world_without_its_entities_is_not_registered() {
    let mut hollow = specs::World { res: specs::Resources::new() };
    assert!(!is_registered(&mut hollow));
}

#[test]
fn a_world_with_a_leaked_borrow_is_not_registered() {
    let mut world = new_world();
    std::mem::forget(world.read_storage::<Velocity>());
    assert!(!is_registered(&mut world));
    let mut other = new_world();
    std::mem::forget(world.write_storage::<Square>());
    std::mem::forget(other.entities());
    assert!(!is_registered(&mut other));
}

#[test]
fn is_registered_leaves_the_world_free_to_borrow() {
    let mut world = create_scene();
    assert!(is_registered(&mut world));
    assert!(is_registered(&mut world));
    assert_eq!(join(&mut world, ALL).len(), 3);
    create_static(&mut world);
    assert_eq!(join(&mut world, ALL).len(), 4);
}
