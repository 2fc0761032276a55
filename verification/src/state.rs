//! The main state of the game: the world with its scene and the stages of
//! the pipeline, and what a tick and the keyboard do to them. Drawing and
//! the physics engine are the front end's; it hands in what it has read
//! and takes away what it is to do.

use vstd::prelude::*;
use specs::World;
use crate::entities::create_scene;
use crate::entities::is_scene;
use crate::scheduler::clamp_tick;
use crate::scheduler::clamped;
use crate::scheduler::declared_order;
use crate::scheduler::pipeline;
use crate::scheduler::respects;
use crate::scheduler::Stage;
use crate::store::world_entities;
use crate::store::world_registered;
use crate::store::world_spare;
use crate::store::Parts;
use crate::store::MAX_ENTITIES;
use crate::systems::control::ControlSystem;
use crate::systems::control::Keycode;
use crate::systems::movement::drives;
use crate::systems::movement::synced;
use crate::systems::movement::Force;
use crate::systems::movement::Mode;
use crate::systems::movement::MoveSystem;
use crate::systems::movement::Pose;

verus! {

/// The world and the stages that run on it each tick, in their order.
pub struct MainState {
    pub world: World,
    pub stages: Vec<Stage>,
}

/// What a tick hands to the physics engine before the engine's stages run.
pub struct Tick {
    /// The length of the tick, in nanoseconds.
    pub nanos: u32,
    /// The forces to add to the bodies.
    pub forces: Vec<Force>,
}

impl MainState {
    /// The state at start-up: a new world that holds the scene, and the six
    /// stages in the declared order, each once and after the stages it
    /// needs.
    pub fn new() -> (state: MainState)
        ensures
            world_registered(state.world),
            is_scene(world_entities(state.world)),
            world_spare(state.world) == MAX_ENTITIES - 3,
            state.stages@ == declared_order(),
            respects(state.stages@),
    {
        MainState { world: create_scene(), stages: pipeline() }
    }

    /// The movement stage of a tick that took `secs` seconds and
    /// `subsec_nanos` nanoseconds, run ahead of the stages of the physics
    /// engine. It caps the length of the tick, takes the poses that the
    /// engine reports over into the squares, and hands out the forces that
    /// the keys ask for. The stages stay as they are.
    pub fn update(&mut self, secs: u64, subsec_nanos: u32, poses: &Vec<Pose>) -> (tick: Tick)
        requires
            world_registered(old(self).world),
        ensures
            tick.nanos == clamped(secs, subsec_nanos),
            world_entities(final(self).world) == synced(world_entities(old(self).world), poses@),
            drives(tick.forces@, world_entities(final(self).world), false),
            world_registered(final(self).world),
            world_spare(final(self).world) == world_spare(old(self).world),
            final(self).stages == old(self).stages,
    {
        let nanos = clamp_tick(secs, subsec_nanos);
        MoveSystem.sync(&mut self.world, poses);
        let forces = MoveSystem.run(&mut self.world, Mode::Physics);
        Tick { nanos, forces }
    }

    /// A key went down.
    pub fn key_down_event(&mut self, keycode: Keycode)
        requires
            world_registered(old(self).world),
        ensures
            world_entities(final(self).world) == world_entities(old(self).world).map_values(
                |parts: Parts| (ControlSystem { keycode, down_event: true }).parts_after(parts),
            ),
            world_registered(final(self).world),
            world_spare(final(self).world) == world_spare(old(self).world),
            final(self).stages == old(self).stages,
    {
        ControlSystem::new(keycode, true).run(&mut self.world);
    }

    /// A key came up.
    pub fn key_up_event(&mut self, keycode: Keycode)
        requires
            world_registered(old(self).world),
        ensures
            world_entities(final(self).world) == world_entities(old(self).world).map_values(
                |parts: Parts| (ControlSystem { keycode, down_event: false }).parts_after(parts),
            ),
            world_registered(final(self).world),
            world_spare(final(self).world) == world_spare(old(self).world),
            final(self).stages == old(self).stages,
    {
        ControlSystem::new(keycode, false).run(&mut self.world);
    }
}

} // verus!
