//! The component store: a `specs::World`, seen as a map from entity index to
//! the components of this crate that the entity carries.
//!
//! Every function here takes the world by exclusive reference. `specs` hands
//! out its resources under run-time borrow rules; with exclusive access the
//! only borrow that can stand in the way is one that was leaked, and
//! [`is_registered`] tells.

use vstd::prelude::*;
use std::any::TypeId;
use specs::Builder;
use specs::Join;
use specs::storage::MaskedStorage;
use specs::world::EntitiesRes;
use specs::World;
use crate::components::Controllable;
use crate::components::Square;
use crate::components::Velocity;

verus! {

/// `specs::World`. Opaque: what verified code knows of a world is
/// [`world_entities`], [`world_registered`] and [`world_spare`].
#[verifier::external_type_specification]
#[verifier::external_body]
pub struct ExWorld(World);

/// The components of this crate that one entity carries.
#[derive(Clone, Copy, Debug, PartialEq, Eq, Structural)]
pub struct Parts {
    pub square: Option<Square>,
    pub velocity: Option<Velocity>,
    pub control: Option<Controllable>,
}

impl Parts {
    /// An entity without any component.
    pub open spec fn bare() -> Parts {
        Parts { square: None, velocity: None, control: None }
    }
}

/// The entities of a world that a join over its entities walks, by index,
/// each with the components that its storages give for it.
pub uninterp spec fn world_entities(world: World) -> Map<u32, Parts>;

/// Whether a world is fit for this crate: its entities and the storages of
/// `Square`, `Velocity` and `Controllable` are among its resources, and none
/// of the four is borrowed.
pub uninterp spec fn world_registered(world: World) -> bool;

/// How many entities the allocator of a world can still create one after
/// another, each at an index below [`MAX_ENTITIES`] that holds no entity by
/// then and whose generation is not alive. It is a matter of the allocator
/// alone: of its free list, its high-water mark and its generations.
pub uninterp spec fn world_spare(world: World) -> nat;

/// The number of entities that a new world has room for. `specs` keeps
/// indices in bit sets of four layers of machine words, which hold this many
/// on a 32-bit machine and more on a 64-bit one.
pub const MAX_ENTITIES: usize = 1_048_576;

/// Whether another entity can be created.
pub open spec fn has_room(world: World) -> bool {
    world_spare(world) > 0
}

/// Whether `ids` rises strictly.
pub open spec fn ascending(ids: Seq<u32>) -> bool {
    forall|i: int, j: int| 0 <= i < j < ids.len() ==> ids[i] < ids[j]
}

/// `World::new`, then `World::register` for each component type of this
/// crate. The new world has no entity, and each registration adds an empty
/// storage. Its allocator starts at index 0 with an empty free list, so it
/// hands out the indices from 0 up, one by one.
#[verifier::external_body]
pub(crate) fn registered_world() -> (world: World)
    ensures
        world_entities(world).dom() == Set::<u32>::empty(),
        world_registered(world),
        world_spare(world) == MAX_ENTITIES,
{
    let mut world = World::new();
    world.register::<Square>();
    world.register::<Velocity>();
    world.register::<Controllable>();
    world
}

/// `Resources::try_fetch_internal` and `TrustCell::try_borrow_mut`, asked of
/// the world's resources for its entities and for the storage of each
/// component type: whether the resource is there and can be borrowed. A
/// borrow that succeeds ends at once.
#[verifier::external_body]
pub(crate) fn resources_free(world: &mut World) -> (free: (bool, bool, bool, bool))
    ensures
        (free.0 && free.1 && free.2 && free.3) == world_registered(*old(world)),
        world_entities(*final(world)) == world_entities(*old(world)),
        world_registered(*final(world)) == world_registered(*old(world)),
        world_spare(*final(world)) == world_spare(*old(world)),
{
    let res = &world.res;
    (
        res.try_fetch_internal(TypeId::of::<EntitiesRes>()).map_or(false, |c| c.try_borrow_mut().is_ok()),
        res.try_fetch_internal(TypeId::of::<MaskedStorage<Square>>()).map_or(false, |c| c.try_borrow_mut().is_ok()),
        res.try_fetch_internal(TypeId::of::<MaskedStorage<Velocity>>()).map_or(false, |c| c.try_borrow_mut().is_ok()),
        res.try_fetch_internal(TypeId::of::<MaskedStorage<Controllable>>()).map_or(false, |c| c.try_borrow_mut().is_ok()),
    )
}

/// `World::create_entity` and `Builder::build`, then `Storage::remove` on
/// each storage of this crate and `Entity::id`. That the allocator hands out
/// an index below [`MAX_ENTITIES`] which held no entity is what
/// [`world_spare`] counts, and the storages leave the allocator alone. A
/// storage can be written at an index before an entity lives there, so the
/// new entity is cleared of what the storages may hold for it.
#[verifier::external_body]
pub(crate) fn spawn_entity(world: &mut World) -> (id: u32)
    requires
        world_registered(*old(world)),
        has_room(*old(world)),
    ensures
        id < MAX_ENTITIES,
        !world_entities(*old(world)).dom().contains(id),
        world_entities(*final(world)) == world_entities(*old(world)).insert(id, Parts::bare()),
        world_registered(*final(world)),
        world_spare(*final(world)) == world_spare(*old(world)) - 1,
{
    let entity = world.create_entity().build();
    world.write_storage::<Square>().remove(entity);
    world.write_storage::<Velocity>().remove(entity);
    world.write_storage::<Controllable>().remove(entity);
    entity.id()
}

/// `World::entities` and `Join::join` on it, each entity turned into its
/// index by `Entity::id`. The join walks the bit set of the entities from
/// the lowest index up.
#[verifier::external_body]
pub(crate) fn entity_ids(world: &mut World) -> (ids: Vec<u32>)
    requires
        world_registered(*old(world)),
    ensures
        ascending(ids@),
        ids@.to_set() == world_entities(*old(world)).dom(),
        world_entities(*final(world)) == world_entities(*old(world)),
        world_registered(*final(world)),
        world_spare(*final(world)) == world_spare(*old(world)),
{
    (&*world.entities()).join().map(|entity| entity.id()).collect()
}

/// `World::read_storage` for each component type and `Storage::get` on it,
/// which gives the component stored for an entity, if any. The entity is
/// looked up by `EntitiesRes::entity`.
#[verifier::external_body]
pub(crate) fn entity_parts(world: &mut World, id: u32) -> (parts: Parts)
    requires
        world_registered(*old(world)),
        world_entities(*old(world)).dom().contains(id),
    ensures
        parts == world_entities(*old(world))[id],
        world_entities(*final(world)) == world_entities(*old(world)),
        world_registered(*final(world)),
        world_spare(*final(world)) == world_spare(*old(world)),
{
    let entity = world.entities().entity(id);
    Parts {
        square: world.read_storage::<Square>().get(entity).copied(),
        velocity: world.read_storage::<Velocity>().get(entity).copied(),
        control: world.read_storage::<Controllable>().get(entity).copied(),
    }
}

/// `World::write_storage` and `Storage::insert` on it, which stores the
/// component for an entity and replaces the one it had. The entity is looked
/// up by `EntitiesRes::entity`.
#[verifier::external_body]
pub(crate) fn put_square(world: &mut World, id: u32, value: Square)
    requires
        world_registered(*old(world)),
        world_entities(*old(world)).dom().contains(id),
    ensures
        world_entities(*final(world)) == world_entities(*old(world)).insert(
            id,
            (Parts { square: Some(value), ..world_entities(*old(world))[id] }),
        ),
        world_registered(*final(world)),
        world_spare(*final(world)) == world_spare(*old(world)),
{
    let entity = world.entities().entity(id);
    let _ = world.write_storage::<Square>().insert(entity, value);
}

/// As [`put_square`], for `Velocity`.
#[verifier::external_body]
pub(crate) fn put_velocity(world: &mut World, id: u32, value: Velocity)
    requires
        world_registered(*old(world)),
        world_entities(*old(world)).dom().contains(id),
    ensures
        world_entities(*final(world)) == world_entities(*old(world)).insert(
            id,
            (Parts { velocity: Some(value), ..world_entities(*old(world))[id] }),
        ),
        world_registered(*final(world)),
        world_spare(*final(world)) == world_spare(*old(world)),
{
    let entity = world.entities().entity(id);
    let _ = world.write_storage::<Velocity>().insert(entity, value);
}

/// As [`put_square`], for `Controllable`.
#[verifier::external_body]
pub(crate) fn put_control(world: &mut World, id: u32, value: Controllable)
    requires
        world_registered(*old(world)),
        world_entities(*old(world)).dom().contains(id),
    ensures
        world_entities(*final(world)) == world_entities(*old(world)).insert(
            id,
            (Parts { control: Some(value), ..world_entities(*old(world))[id] }),
        ),
        world_registered(*final(world)),
        world_spare(*final(world)) == world_spare(*old(world)),
{
    let entity = world.entities().entity(id);
    let _ = world.write_storage::<Controllable>().insert(entity, value);
}

/// Law: a world holds finitely many entities, whatever their indices, so
/// they can be counted.
pub proof fn lemma_indices_finite(ids: Set<u32>)
    ensures
        ids.finite(),
{
    let range = vstd::set_lib::set_int_range(0, 0x1_0000_0000);
    let indices = range.map(|i: int| i as u32);
    vstd::set_lib::lemma_int_range(0, 0x1_0000_0000);
    range.lemma_map_finite(|i: int| i as u32);
    assert forall|id: u32| ids.contains(id) implies indices.contains(id) by {
        assert(range.contains(id as int) && (id as int) as u32 == id);
    }
    vstd::set_lib::lemma_len_subset(ids, indices);
}

/// Which components a join asks for.
#[derive(Clone, Copy, Debug, PartialEq, Eq, Structural)]
pub struct Query {
    pub square: bool,
    pub velocity: bool,
    pub control: bool,
}

impl Query {
    /// Whether `parts` holds every component that the query asks for.
    pub open spec fn admits(self, parts: Parts) -> bool {
        &&& self.square ==> parts.square is Some
        &&& self.velocity ==> parts.velocity is Some
        &&& self.control ==> parts.control is Some
    }

    /// Decides [`Query::admits`].
    pub fn matches(&self, parts: &Parts) -> (yes: bool)
        ensures
            yes == self.admits(*parts),
    {
        (!self.square || parts.square.is_some()) && (!self.velocity || parts.velocity.is_some())
            && (!self.control || parts.control.is_some())
    }
}

/// The entities of `entities` that `query` admits.
pub open spec fn selected(entities: Map<u32, Parts>, query: Query) -> Map<u32, Parts> {
    Map::new(
        |id: u32| entities.dom().contains(id) && query.admits(entities[id]),
        |id: u32| entities[id],
    )
}

/// Whether `rows` is `entities` written out by rising index: one row for
/// each entity, holding its index and its components.
pub open spec fn lists(rows: Seq<(u32, Parts)>, entities: Map<u32, Parts>) -> bool {
    &&& forall|i: int, j: int| 0 <= i < j < rows.len() ==> rows[i].0 < rows[j].0
    &&& forall|i: int|
        0 <= i < rows.len() ==> entities.dom().contains(#[trigger] rows[i].0) && rows[i].1
            == entities[rows[i].0]
    &&& forall|id: u32|
        entities.dom().contains(id) ==> exists|i: int| 0 <= i < rows.len() && #[trigger] rows[i].0 == id
}

/// A world without entities in which the components of this crate are
/// registered, with room for [`MAX_ENTITIES`] entities.
pub fn new_world() -> (world: World)
    ensures
        world_entities(world).dom() == Set::<u32>::empty(),
        world_registered(world),
        world_spare(world) == MAX_ENTITIES,
{
    registered_world()
}

/// Decides [`world_registered`]. The world is left as it was.
pub fn is_registered(world: &mut World) -> (yes: bool)
    ensures
        yes == world_registered(*old(world)),
        world_entities(*final(world)) == world_entities(*old(world)),
        world_registered(*final(world)) == world_registered(*old(world)),
        world_spare(*final(world)) == world_spare(*old(world)),
{
    let free = resources_free(world);
    free.0 && free.1 && free.2 && free.3
}

/// The entities that carry every component `query` asks for, by rising
/// index, each with all its components. The world is left as it was.
pub fn join(world: &mut World, query: Query) -> (rows: Vec<(u32, Parts)>)
    requires
        world_registered(*old(world)),
    ensures
        lists(rows@, selected(world_entities(*old(world)), query)),
        world_entities(*final(world)) == world_entities(*old(world)),
        world_registered(*final(world)),
        world_spare(*final(world)) == world_spare(*old(world)),
{
    let ghost entities = world_entities(*world);
    let ids = entity_ids(world);
    let mut rows: Vec<(u32, Parts)> = Vec::new();
    let mut i: usize = 0;
    while i < ids.len()
        invariant
            0 <= i <= ids.len(),
            ascending(ids@),
            ids@.to_set() == entities.dom(),
            world_entities(*world) == entities,
            world_registered(*world),
            world_spare(*world) == world_spare(*old(world)),
            forall|k: int, j: int| 0 <= k < rows.len() && i <= j < ids.len() ==> rows[k].0 < ids[j],
            forall|k: int, l: int| 0 <= k < l < rows.len() ==> rows[k].0 < rows[l].0,
            forall|k: int|
                0 <= k < rows.len() ==> entities.dom().contains(#[trigger] rows[k].0)
                    && query.admits(entities[rows[k].0]) && rows[k].1 == entities[rows[k].0],
            forall|j: int|
                0 <= j < i && query.admits(entities[#[trigger] ids[j]]) ==> exists|k: int|
                    0 <= k < rows.len() && #[trigger] rows[k].0 == ids[j],
        decreases ids.len() - i,
    {
        let id = ids[i];
        let parts = entity_parts(world, id);
        if query.matches(&parts) {
            let ghost before = rows@;
            rows.push((id, parts));
            assert forall|j: int|
                0 <= j < i + 1 && query.admits(entities[#[trigger] ids[j]]) implies exists|k: int|
                0 <= k < rows.len() && #[trigger] rows[k].0 == ids[j] by {
                if j < i {
                    let k = choose|k: int| 0 <= k < before.len() && #[trigger] before[k].0 == ids[j];
                    assert(rows[k].0 == ids[j]);
                } else {
                    assert(rows[before.len() as int].0 == ids[j]);
                }
            }
        }
        i += 1;
    }
    rows
}

} // verus!
