//! The entity factory: the three bodies of the scene.

use vstd::prelude::*;
use specs::World;
use crate::components::Controllable;
use crate::components::Square;
use crate::components::Velocity;
use crate::store::has_room;
use crate::store::lemma_indices_finite;
use crate::store::new_world;
use crate::store::put_control;
use crate::store::put_square;
use crate::store::put_velocity;
use crate::store::spawn_entity;
use crate::store::world_entities;
use crate::store::world_registered;
use crate::store::world_spare;
use crate::store::MAX_ENTITIES;
use crate::store::selected;
use crate::store::Parts;
use crate::store::Query;

verus! {

/// The body that never moves: 100 x 100 at (70, 70), no velocity.
pub open spec fn static_body() -> Parts {
    Parts {
        square: Some(Square { width: 100, height: 100, x: 70, y: 70 }),
        velocity: None,
        control: None,
    }
}

/// The body that drifts: 400 x 100 at (200, 200), moving by (50, 50).
pub open spec fn moving_body() -> Parts {
    Parts {
        square: Some(Square { width: 400, height: 100, x: 200, y: 200 }),
        velocity: Some(Velocity { x: 50, y: 50 }),
        control: None,
    }
}

/// The body that the keyboard steers: 200 x 100 at (100, 400), at rest and
/// with no force asked for.
pub open spec fn player_body() -> Parts {
    Parts {
        square: Some(Square { width: 200, height: 100, x: 100, y: 400 }),
        velocity: Some(Velocity { x: 0, y: 0 }),
        control: Some(Controllable { x: 0, y: 0 }),
    }
}

/// Whether `after` is `before` with one more entity, which carries `parts`.
pub open spec fn spawned(before: Map<u32, Parts>, after: Map<u32, Parts>, parts: Parts) -> bool {
    exists|id: u32| !before.dom().contains(id) && after == #[trigger] before.insert(id, parts)
}

/// Adds the static body to the world.
pub fn create_static(world: &mut World)
    requires
        world_registered(*old(world)),
        has_room(*old(world)),
    ensures
        world_registered(*final(world)),
        spawned(world_entities(*old(world)), world_entities(*final(world)), static_body()),
        world_entities(*final(world)).dom().len() == world_entities(*old(world)).dom().len() + 1,
        world_spare(*final(world)) == world_spare(*old(world)) - 1,
{
    let ghost before = world_entities(*world);
    proof {
        lemma_indices_finite(before.dom());
    }
    let id = spawn_entity(world);
    put_square(world, id, Square { width: 100, height: 100, x: 70, y: 70 });
    assert(world_entities(*world) =~= before.insert(id, static_body()));
}

/// Adds the moving body to the world.
pub fn create_moving(world: &mut World)
    requires
        world_registered(*old(world)),
        has_room(*old(world)),
    ensures
        world_registered(*final(world)),
        spawned(world_entities(*old(world)), world_entities(*final(world)), moving_body()),
        world_entities(*final(world)).dom().len() == world_entities(*old(world)).dom().len() + 1,
        world_spare(*final(world)) == world_spare(*old(world)) - 1,
{
    let ghost before = world_entities(*world);
    proof {
        lemma_indices_finite(before.dom());
    }
    let id = spawn_entity(world);
    put_square(world, id, Square { width: 400, height: 100, x: 200, y: 200 });
    put_velocity(world, id, Velocity { x: 50, y: 50 });
    assert(world_entities(*world) =~= before.insert(id, moving_body()));
}

/// Adds the player body to the world. Nothing keeps a caller from adding a
/// second one: that only one entity answers to the keyboard is up to the
/// caller.
pub fn create_player(world: &mut World)
    requires
        world_registered(*old(world)),
        has_room(*old(world)),
    ensures
        world_registered(*final(world)),
        spawned(world_entities(*old(world)), world_entities(*final(world)), player_body()),
        world_entities(*final(world)).dom().len() == world_entities(*old(world)).dom().len() + 1,
        world_spare(*final(world)) == world_spare(*old(world)) - 1,
{
    let ghost before = world_entities(*world);
    proof {
        lemma_indices_finite(before.dom());
    }
    let id = spawn_entity(world);
    put_square(world, id, Square { width: 200, height: 100, x: 100, y: 400 });
    put_velocity(world, id, Velocity { x: 0, y: 0 });
    put_control(world, id, Controllable { x: 0, y: 0 });
    assert(world_entities(*world) =~= before.insert(id, player_body()));
}

/// The world that holds the static body at index `a`, the moving body at `b`
/// and the player body at `c`.
pub open spec fn scene_of(a: u32, b: u32, c: u32) -> Map<u32, Parts> {
    Map::<u32, Parts>::empty().insert(a, static_body()).insert(b, moving_body()).insert(
        c,
        player_body(),
    )
}

/// Whether `entities` is the scene: the three bodies, each once, and nothing
/// else.
pub open spec fn is_scene(entities: Map<u32, Parts>) -> bool {
    exists|a: u32, b: u32, c: u32|
        a != b && a != c && b != c && entities == #[trigger] scene_of(a, b, c)
}

/// A new world that holds the scene: each factory is called once.
pub fn create_scene() -> (world: World)
    ensures
        world_registered(world),
        is_scene(world_entities(world)),
        world_entities(world).dom().len() == 3,
        world_spare(world) == MAX_ENTITIES - 3,
{
    let mut world = new_world();
    let ghost none = world_entities(world);
    create_static(&mut world);
    let ghost one = world_entities(world);
    create_moving(&mut world);
    let ghost two = world_entities(world);
    create_player(&mut world);
    let ghost three = world_entities(world);
    proof {
        let a = choose|id: u32|
            !none.dom().contains(id) && one == #[trigger] none.insert(id, static_body());
        let b = choose|id: u32|
            !one.dom().contains(id) && two == #[trigger] one.insert(id, moving_body());
        let c = choose|id: u32|
            !two.dom().contains(id) && three == #[trigger] two.insert(id, player_body());
        assert(three == scene_of(a, b, c));
    }
    world
}

/// Law: creating an entity makes the world one entity larger, and makes a
/// join one row longer exactly when the query admits the new entity. So a
/// second player body is a second entity that answers to the keyboard.
pub proof fn lemma_spawn_counts(
    before: Map<u32, Parts>,
    after: Map<u32, Parts>,
    parts: Parts,
    query: Query,
)
    requires
        spawned(before, after, parts),
    ensures
        after.dom().len() == before.dom().len() + 1,
        query.admits(parts) ==> selected(after, query).dom().len() == selected(
            before,
            query,
        ).dom().len() + 1,
        !query.admits(parts) ==> selected(after, query) == selected(before, query),
{
    let id = choose|id: u32| !before.dom().contains(id) && after == #[trigger] before.insert(id, parts);
    let old_rows = selected(before, query).dom();
    let new_rows = selected(after, query).dom();
    lemma_indices_finite(before.dom());
    lemma_indices_finite(old_rows);
    if query.admits(parts) {
        assert(new_rows =~= old_rows.insert(id));
    } else {
        assert(selected(after, query) =~= selected(before, query));
    }
}

} // verus!
