//! Movement: what the bodies are owed before the physics engine solves a
//! tick, and the step that moves them where no physics engine does.

use vstd::prelude::*;
use specs::World;
use crate::components::Controllable;
use crate::components::Square;
use crate::components::Velocity;
use crate::store::join;
use crate::store::lists;
use crate::store::put_square;
use crate::store::selected;
use crate::store::world_entities;
use crate::store::world_registered;
use crate::store::world_spare;
use crate::store::Parts;
use crate::store::Query;
use crate::systems::control::ControlSystem;

verus! {

/// What moves the bodies from tick to tick.
#[derive(Clone, Copy, Debug, PartialEq, Eq, Structural)]
pub enum Mode {
    /// The movement system itself, by `dt` time units a tick.
    Manual { dt: u32 },
    /// A physics engine, which is handed the force that the keys ask for.
    Physics,
    /// A physics engine, which is handed each velocity times [`GAIN`].
    PhysicsByVelocity,
}

/// A force that the physics engine is to add to a body before it solves the
/// tick.
#[derive(Clone, Copy, Debug, PartialEq, Eq, Structural)]
pub struct Force {
    /// Index of the entity.
    pub entity: u32,
    pub x: i64,
    pub y: i64,
}

/// Factor by which a velocity becomes a force.
pub const GAIN: i64 = 10;

/// The force owed to a body that has a velocity and answers to the
/// keyboard, on both axes: the force its `Controllable` carries, as it is,
/// or, where `by_velocity` is set, its velocity times [`GAIN`].
pub open spec fn force_owed(parts: Parts, by_velocity: bool) -> (int, int) {
    if by_velocity {
        (GAIN * parts.velocity->0.x, GAIN * parts.velocity->0.y)
    } else {
        (parts.control->0.x as int, parts.control->0.y as int)
    }
}

/// Whether `forces` is what the bodies of `entities` are owed: by rising
/// index, one force for each entity that has a velocity and answers to the
/// keyboard, as [`force_owed`] has it.
pub open spec fn drives(forces: Seq<Force>, entities: Map<u32, Parts>, by_velocity: bool) -> bool {
    &&& forall|i: int, j: int| 0 <= i < j < forces.len() ==> forces[i].entity < forces[j].entity
    &&& forall|i: int|
        0 <= i < forces.len() ==> {
            let parts = entities[(#[trigger] forces[i]).entity];
            &&& entities.dom().contains(forces[i].entity)
            &&& parts.velocity is Some
            &&& parts.control is Some
            &&& (forces[i].x as int, forces[i].y as int) == force_owed(parts, by_velocity)
        }
    &&& forall|id: u32|
        entities.dom().contains(id) && entities[id].velocity is Some && entities[id].control is Some
            ==> exists|i: int| 0 <= i < forces.len() && (#[trigger] forces[i]).entity == id
}

/// Where the physics engine has a body.
#[derive(Clone, Copy, Debug, PartialEq, Eq, Structural)]
pub struct Pose {
    /// Index of the entity.
    pub entity: u32,
    pub x: i32,
    pub y: i32,
}

/// The world after one pose has been taken over: the square of the entity
/// it names stands where the pose says and keeps its extent. A pose that
/// names no living entity, or one without a square, changes nothing.
pub open spec fn placed(entities: Map<u32, Parts>, pose: Pose) -> Map<u32, Parts> {
    if entities.dom().contains(pose.entity) {
        match entities[pose.entity].square {
            Some(square) => entities.insert(
                pose.entity,
                Parts {
                    square: Some(Square { x: pose.x, y: pose.y, ..square }),
                    ..entities[pose.entity]
                },
            ),
            None => entities,
        }
    } else {
        entities
    }
}

/// The world after the poses have been taken over one by one, first to
/// last, so that a later pose of an entity overwrites an earlier one.
pub open spec fn synced(entities: Map<u32, Parts>, poses: Seq<Pose>) -> Map<u32, Parts>
    decreases poses.len(),
{
    if poses.len() == 0 {
        entities
    } else {
        placed(synced(entities, poses.drop_last()), poses.last())
    }
}

/// Whether two entities differ at most in where their squares stand.
pub open spec fn same_but_place(one: Parts, other: Parts) -> bool {
    &&& one.velocity == other.velocity
    &&& one.control == other.control
    &&& match (one.square, other.square) {
        (Some(a), Some(b)) => a.width == b.width && a.height == b.height,
        (None, None) => true,
        _ => false,
    }
}

/// Law: taking poses over moves squares and does nothing else. The same
/// entities live, each keeps its velocity, what it asks of the keyboard and
/// the extent of its square, and no square comes or goes.
pub proof fn lemma_sync_only_places(entities: Map<u32, Parts>, poses: Seq<Pose>)
    ensures
        synced(entities, poses).dom() == entities.dom(),
        forall|id: u32|
            entities.dom().contains(id) ==> same_but_place(
                entities[id],
                #[trigger] synced(entities, poses)[id],
            ),
    decreases poses.len(),
{
    if poses.len() > 0 {
        lemma_sync_only_places(entities, poses.drop_last());
    }
}

/// Where a coordinate is after `dt` time units at `velocity`.
pub open spec fn advance(position: int, velocity: int, dt: int) -> int {
    position + velocity * dt
}

/// Whether the square stays within the coordinates that can be held when it
/// moves at `velocity` for `dt` time units.
pub open spec fn can_move(square: Square, velocity: Velocity, dt: u32) -> bool {
    &&& i32::MIN <= advance(square.x as int, velocity.x as int, dt as int) <= i32::MAX
    &&& i32::MIN <= advance(square.y as int, velocity.y as int, dt as int) <= i32::MAX
}

/// The square after it has moved at `velocity` for `dt` time units.
pub open spec fn moved(square: Square, velocity: Velocity, dt: u32) -> Square {
    Square {
        x: advance(square.x as int, velocity.x as int, dt as int) as i32,
        y: advance(square.y as int, velocity.y as int, dt as int) as i32,
        ..square
    }
}

/// Law: a square that can move ends exactly at `position + velocity * dt`
/// on each axis, and keeps its extent.
pub proof fn lemma_move_is_exact(square: Square, velocity: Velocity, dt: u32)
    requires
        can_move(square, velocity, dt),
    ensures
        moved(square, velocity, dt).x == square.x + velocity.x * dt,
        moved(square, velocity, dt).y == square.y + velocity.y * dt,
        moved(square, velocity, dt).width == square.width,
        moved(square, velocity, dt).height == square.height,
{
}

/// Law: movement does not drift. Two steps of `first` and `second` time
/// units end where one step of both together ends.
pub proof fn lemma_move_adds_up(square: Square, velocity: Velocity, first: u32, second: u32)
    requires
        first + second <= u32::MAX,
        can_move(square, velocity, first),
        can_move(moved(square, velocity, first), velocity, second),
    ensures
        can_move(square, velocity, (first + second) as u32),
        moved(moved(square, velocity, first), velocity, second) == moved(
            square,
            velocity,
            (first + second) as u32,
        ),
{
    assert(velocity.x * (first + second) == velocity.x * first + velocity.x * second)
        by (nonlinear_arith);
    assert(velocity.y * (first + second) == velocity.y * first + velocity.y * second)
        by (nonlinear_arith);
}

/// The movement step. It is run once per tick, before the physics engine
/// solves the tick.
pub struct MoveSystem;

impl MoveSystem {
    /// One coordinate after `dt` time units, if it can be held.
    fn advance_axis(position: i32, velocity: i32, dt: u32) -> (after: Option<i32>)
        ensures
            after is Some <==> i32::MIN <= advance(position as int, velocity as int, dt as int)
                <= i32::MAX,
            after is Some ==> after->0 == advance(position as int, velocity as int, dt as int),
    {
        assert(-0x8000_0000 * 0xFFFF_FFFF <= (velocity as int) * (dt as int) <= 0x8000_0000
            * 0xFFFF_FFFF) by (nonlinear_arith)
            requires
                -0x8000_0000 <= velocity as int <= 0x7FFF_FFFF,
                0 <= dt as int <= 0xFFFF_FFFF,
        ;
        let target: i64 = position as i64 + velocity as i64 * dt as i64;
        if target < i32::MIN as i64 || target > i32::MAX as i64 {
            None
        } else {
            Some(target as i32)
        }
    }

    /// The square after it has moved at `velocity` for `dt` time units, or
    /// `None` where a coordinate would leave the range that can be held.
    pub fn displace(square: Square, velocity: Velocity, dt: u32) -> (after: Option<Square>)
        ensures
            after is Some <==> can_move(square, velocity, dt),
            after is Some ==> after->0 == moved(square, velocity, dt),
    {
        match (
            Self::advance_axis(square.x, velocity.x, dt),
            Self::advance_axis(square.y, velocity.y, dt),
        ) {
            (Some(x), Some(y)) => Some(Square { width: square.width, height: square.height, x, y }),
            _ => None,
        }
    }

    /// The components of an entity after it has moved for `dt` time units:
    /// a square that has a velocity is displaced, and nothing else changes.
    pub open spec fn parts_moved(parts: Parts, dt: u32) -> Parts {
        match (parts.square, parts.velocity) {
            (Some(square), Some(velocity)) => Parts {
                square: Some(moved(square, velocity, dt)),
                ..parts
            },
            _ => parts,
        }
    }

    /// Whether every square that has a velocity can move for `dt` time
    /// units.
    pub open spec fn all_can_move(entities: Map<u32, Parts>, dt: u32) -> bool {
        forall|id: u32| #[trigger]
            entities.dom().contains(id) ==> match (entities[id].square, entities[id].velocity) {
                (Some(square), Some(velocity)) => can_move(square, velocity, dt),
                _ => true,
            }
    }

    /// The force owed to one body.
    fn force_of(
        entity: u32,
        velocity: Velocity,
        control: Controllable,
        by_velocity: bool,
    ) -> (force: Force)
        ensures
            force.entity == entity,
            (force.x as int, force.y as int) == force_owed(
                (Parts { square: None, velocity: Some(velocity), control: Some(control) }),
                by_velocity,
            ),
    {
        if by_velocity {
            Force { entity, x: GAIN * (velocity.x as i64), y: GAIN * (velocity.y as i64) }
        } else {
            Force { entity, x: control.x as i64, y: control.y as i64 }
        }
    }

    /// The forces owed to the bodies, by rising index.
    fn forces(world: &mut World, by_velocity: bool) -> (forces: Vec<Force>)
        requires
            world_registered(*old(world)),
        ensures
            drives(forces@, world_entities(*old(world)), by_velocity),
            world_entities(*final(world)) == world_entities(*old(world)),
            world_registered(*final(world)),
            world_spare(*final(world)) == world_spare(*old(world)),
    {
        let ghost entities = world_entities(*world);
        let query = Query { square: false, velocity: true, control: true };
        let rows = join(world, query);
        let mut forces: Vec<Force> = Vec::new();
        let mut i: usize = 0;
        while i < rows.len()
            invariant
                0 <= i <= rows.len(),
                query == (Query { square: false, velocity: true, control: true }),
                lists(rows@, selected(entities, query)),
                forces.len() == i,
                forall|k: int|
                    0 <= k < i ==> (#[trigger] forces[k]).entity == rows[k].0 && (
                        forces[k].x as int,
                        forces[k].y as int,
                    ) == force_owed(rows[k].1, by_velocity),
            decreases rows.len() - i,
        {
            let (id, parts) = rows[i];
            if let (Some(velocity), Some(control)) = (parts.velocity, parts.control) {
                forces.push(Self::force_of(id, velocity, control, by_velocity));
            }
            i += 1;
        }
        proof {
            assert forall|id: u32|
                entities.dom().contains(id) && entities[id].velocity is Some
                    && entities[id].control is Some implies exists|k: int|
                0 <= k < forces.len() && (#[trigger] forces[k]).entity == id by {
                assert(selected(entities, query).dom().contains(id));
                let k = choose|k: int| 0 <= k < rows.len() && #[trigger] rows[k].0 == id;
                assert(forces[k].entity == id);
            }
        }
        forces
    }

    /// The movement step of one tick.
    ///
    /// Where a physics engine moves the bodies, the step hands out the
    /// forces it is to add before it solves the tick: one for each entity
    /// that has a velocity and answers to the keyboard, and the world is
    /// left as it was. Where none does, the step moves every square that has
    /// a velocity to `position + velocity * dt` on each axis, with no
    /// correction, and hands out no force; the squares must be able to move
    /// that far, which [`MoveSystem::integrate`] finds out where it is not
    /// known.
    pub fn run(&self, world: &mut World, mode: Mode) -> (forces: Vec<Force>)
        requires
            world_registered(*old(world)),
            mode is Manual ==> Self::all_can_move(world_entities(*old(world)), mode->dt),
        ensures
            world_registered(*final(world)),
            world_spare(*final(world)) == world_spare(*old(world)),
            mode is Manual ==> forces@.len() == 0 && world_entities(*final(world))
                == world_entities(*old(world)).map_values(
                |parts: Parts| Self::parts_moved(parts, mode->dt),
            ),
            mode == Mode::Physics ==> drives(forces@, world_entities(*old(world)), false)
                && world_entities(*final(world)) == world_entities(*old(world)),
            mode == Mode::PhysicsByVelocity ==> drives(forces@, world_entities(*old(world)), true)
                && world_entities(*final(world)) == world_entities(*old(world)),
    {
        match mode {
            Mode::Manual { dt } => {
                self.integrate(world, dt);
                Vec::new()
            },
            Mode::Physics => Self::forces(world, false),
            Mode::PhysicsByVelocity => Self::forces(world, true),
        }
    }

    /// The manual step of [`MoveSystem::run`] for any world: where a square
    /// would leave the coordinates that can be held, nothing moves and the
    /// answer is `false`.
    pub fn integrate(&self, world: &mut World, dt: u32) -> (done: bool)
        requires
            world_registered(*old(world)),
        ensures
            world_registered(*final(world)),
            world_spare(*final(world)) == world_spare(*old(world)),
            done == Self::all_can_move(world_entities(*old(world)), dt),
            done ==> world_entities(*final(world)) == world_entities(*old(world)).map_values(
                |parts: Parts| Self::parts_moved(parts, dt),
            ),
            !done ==> world_entities(*final(world)) == world_entities(*old(world)),
    {
        let ghost before = world_entities(*world);
        let query = Query { square: true, velocity: true, control: false };
        let rows = join(world, query);
        let mut targets: Vec<Square> = Vec::new();
        let mut i: usize = 0;
        while i < rows.len()
            invariant
                0 <= i <= rows.len(),
                query == (Query { square: true, velocity: true, control: false }),
                lists(rows@, selected(before, query)),
                world_entities(*world) == before,
                world_entities(*old(world)) == before,
                world_registered(*world),
                world_spare(*world) == world_spare(*old(world)),
                targets.len() == i,
                forall|k: int|
                    0 <= k < i ==> can_move(
                        (#[trigger] rows[k]).1.square->0,
                        rows[k].1.velocity->0,
                        dt,
                    ),
                forall|k: int|
                    0 <= k < i ==> #[trigger] targets[k] == moved(
                        rows[k].1.square->0,
                        rows[k].1.velocity->0,
                        dt,
                    ),
            decreases rows.len() - i,
        {
            let (id, parts) = rows[i];
            let target = match (parts.square, parts.velocity) {
                (Some(square), Some(velocity)) => Self::displace(square, velocity, dt),
                _ => None,
            };
            match target {
                Some(target) => {
                    targets.push(target);
                },
                None => {
                    return false;
                },
            }
            i += 1;
        }
        assert forall|id: u32| #[trigger] before.dom().contains(id) implies match (
            before[id].square,
            before[id].velocity,
        ) {
            (Some(square), Some(velocity)) => can_move(square, velocity, dt),
            _ => true,
        } by {
            if before[id].square is Some && before[id].velocity is Some {
                assert(selected(before, query).dom().contains(id));
            }
        }
        let mut j: usize = 0;
        while j < rows.len()
            invariant
                0 <= j <= rows.len(),
                query == (Query { square: true, velocity: true, control: false }),
                lists(rows@, selected(before, query)),
                targets.len() == rows.len(),
                forall|k: int|
                    0 <= k < rows.len() ==> #[trigger] targets[k] == moved(
                        rows[k].1.square->0,
                        rows[k].1.velocity->0,
                        dt,
                    ),
                world_registered(*world),
                world_spare(*world) == world_spare(*old(world)),
                world_entities(*world).dom() == before.dom(),
                forall|k: int|
                    0 <= k < j ==> world_entities(*world)[#[trigger] rows[k].0] == Self::parts_moved(
                        before[rows[k].0],
                        dt,
                    ),
                forall|id: u32|
                    before.dom().contains(id) && (forall|k: int| 0 <= k < j ==> rows[k].0 != id)
                        ==> world_entities(*world)[id] == before[id],
            decreases rows.len() - j,
        {
            let id = rows[j].0;
            put_square(world, id, targets[j]);
            j += 1;
        }
        assert forall|id: u32| before.dom().contains(id) implies world_entities(*world)[id]
            == Self::parts_moved(before[id], dt) by {
            if forall|k: int| 0 <= k < rows.len() ==> rows[k].0 != id {
                assert(!selected(before, query).dom().contains(id));
            }
        }
        true
    }

    /// The row of `rows` that holds the entity `id`, if there is one.
    fn find_row(rows: &Vec<(u32, Parts)>, id: u32) -> (found: Option<usize>)
        ensures
            found is Some ==> found->0 < rows.len() && rows[found->0 as int].0 == id,
            found is None ==> forall|k: int| 0 <= k < rows.len() ==> rows[k].0 != id,
    {
        let mut k: usize = 0;
        while k < rows.len()
            invariant
                0 <= k <= rows.len(),
                forall|l: int| 0 <= l < k ==> rows[l].0 != id,
            decreases rows.len() - k,
        {
            if rows[k].0 == id {
                return Some(k);
            }
            k += 1;
        }
        None
    }

    /// Takes the poses of the physics engine over into the squares, one by
    /// one: the physics engine decides where a body is, and a square only
    /// follows. Nothing flows the other way.
    pub fn sync(&self, world: &mut World, poses: &Vec<Pose>)
        requires
            world_registered(*old(world)),
        ensures
            world_registered(*final(world)),
            world_spare(*final(world)) == world_spare(*old(world)),
            world_entities(*final(world)) == synced(world_entities(*old(world)), poses@),
    {
        let ghost before = world_entities(*world);
        let query = Query { square: true, velocity: false, control: false };
        let rows = join(world, query);
        let mut i: usize = 0;
        while i < poses.len()
            invariant
                0 <= i <= poses.len(),
                query == (Query { square: true, velocity: false, control: false }),
                lists(rows@, selected(before, query)),
                world_registered(*world),
                world_spare(*world) == world_spare(*old(world)),
                world_entities(*world) == synced(before, poses@.take(i as int)),
            decreases poses.len() - i,
        {
            let pose = poses[i];
            proof {
                assert(poses@.take(i + 1).drop_last() =~= poses@.take(i as int));
                lemma_sync_only_places(before, poses@.take(i as int));
            }
            match Self::find_row(&rows, pose.entity) {
                Some(at) => {
                    if let Some(square) = rows[at].1.square {
                        put_square(
                            world,
                            pose.entity,
                            Square {
                                width: square.width,
                                height: square.height,
                                x: pose.x,
                                y: pose.y,
                            },
                        );
                    }
                },
                None => {
                    assert(!selected(before, query).dom().contains(pose.entity));
                },
            }
            i += 1;
        }
        assert(poses@.take(poses.len() as int) =~= poses@);
    }
}

/// Law: a body without velocity that does not answer to the keyboard stays
/// as it was created. No key event reaches it and no movement step moves
/// it.
pub proof fn lemma_static_body_stays(parts: Parts, event: ControlSystem, dt: u32)
    requires
        parts.velocity is None,
        parts.control is None,
    ensures
        event.parts_after(parts) == parts,
        event.parts_after_manual(parts) == parts,
        MoveSystem::parts_moved(parts, dt) == parts,
{
}

} // verus!
