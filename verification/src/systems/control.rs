//! Keyboard control: from a key event to the force or the velocity of the
//! entities that answer to the keyboard.

use vstd::prelude::*;
use specs::World;
use crate::components::Controllable;
use crate::components::Velocity;
use crate::store::join;
use crate::store::lists;
use crate::store::put_control;
use crate::store::put_velocity;
use crate::store::selected;
use crate::store::world_entities;
use crate::store::world_registered;
use crate::store::world_spare;
use crate::store::Parts;
use crate::store::Query;

verus! {


/// A key of the keyboard, as far as the scene tells keys apart.
#[derive(Clone, Copy, Debug, PartialEq, Eq, Structural)]
pub enum Keycode {
    Up,
    Down,
    Left,
    Right,
    /// Any key that is not an arrow.
    Other,
}

/// Force that a held arrow key asks for, where a physics engine moves the
/// bodies.
pub const FORCE: i32 = 200;

/// Speed that a held arrow key sets, where the movement system moves the
/// bodies itself.
pub const SPEED: i32 = 20;

/// What a key event leaves on the horizontal axis, which held `x` before:
/// an arrow that goes down sets its direction, an arrow that comes up clears
/// the axis, whichever of the two arrows of that axis it is.
pub open spec fn steer_x(keycode: Keycode, down: bool, magnitude: int, x: int) -> int {
    match keycode {
        Keycode::Left => if down { -magnitude } else { 0 },
        Keycode::Right => if down { magnitude } else { 0 },
        _ => x,
    }
}

/// As [`steer_x`], for the vertical axis. Up is negative.
pub open spec fn steer_y(keycode: Keycode, down: bool, magnitude: int, y: int) -> int {
    match keycode {
        Keycode::Up => if down { -magnitude } else { 0 },
        Keycode::Down => if down { magnitude } else { 0 },
        _ => y,
    }
}

/// One key event, ready to be applied to whatever answers to the keyboard.
#[derive(Clone, Copy, Debug, PartialEq, Eq, Structural)]
pub struct ControlSystem {
    /// The key of the event.
    pub keycode: Keycode,
    /// Whether the key went down; otherwise it came up.
    pub down_event: bool,
}

impl ControlSystem {
    /// The force asked for after the event, where it was `control` before.
    pub open spec fn force_after(self, control: Controllable) -> Controllable {
        Controllable {
            x: steer_x(self.keycode, self.down_event, FORCE as int, control.x as int) as i32,
            y: steer_y(self.keycode, self.down_event, FORCE as int, control.y as int) as i32,
        }
    }

    /// The velocity after the event, where it was `velocity` before.
    pub open spec fn velocity_after(self, velocity: Velocity) -> Velocity {
        Velocity {
            x: steer_x(self.keycode, self.down_event, SPEED as int, velocity.x as int) as i32,
            y: steer_y(self.keycode, self.down_event, SPEED as int, velocity.y as int) as i32,
        }
    }

    /// The event that `keycode` went down, or that it came up.
    pub fn new(keycode: Keycode, down_event: bool) -> (system: ControlSystem)
        ensures
            system == (ControlSystem { keycode, down_event }),
    {
        ControlSystem { keycode, down_event }
    }

    /// Applies the event to one axis pair.
    fn steer(&self, magnitude: i32, x: i32, y: i32) -> (axes: (i32, i32))
        requires
            0 <= magnitude,
        ensures
            axes.0 == steer_x(self.keycode, self.down_event, magnitude as int, x as int),
            axes.1 == steer_y(self.keycode, self.down_event, magnitude as int, y as int),
    {
        let push: i32 = if self.down_event { magnitude } else { 0 };
        match self.keycode {
            Keycode::Up => (x, -push),
            Keycode::Down => (x, push),
            Keycode::Left => (-push, y),
            Keycode::Right => (push, y),
            Keycode::Other => (x, y),
        }
    }

    /// Applies the event to a force.
    pub fn apply(&self, control: Controllable) -> (after: Controllable)
        ensures
            after == self.force_after(control),
    {
        let (x, y) = self.steer(FORCE, control.x, control.y);
        Controllable { x, y }
    }

    /// Applies the event to a velocity.
    pub fn apply_manual(&self, velocity: Velocity) -> (after: Velocity)
        ensures
            after == self.velocity_after(velocity),
    {
        let (x, y) = self.steer(SPEED, velocity.x, velocity.y);
        Velocity { x, y }
    }

    /// The components of an entity after the event has reached it, where a
    /// physics engine moves the bodies: the force of an entity that answers
    /// to the keyboard follows the key, and nothing else changes.
    pub open spec fn parts_after(self, parts: Parts) -> Parts {
        match parts.control {
            Some(control) => Parts { control: Some(self.force_after(control)), ..parts },
            None => parts,
        }
    }

    /// As [`ControlSystem::parts_after`], where the movement system moves
    /// the bodies itself: the velocity of an entity that answers to the
    /// keyboard follows the key.
    pub open spec fn parts_after_manual(self, parts: Parts) -> Parts {
        match (parts.control, parts.velocity) {
            (Some(_), Some(velocity)) => Parts {
                velocity: Some(self.velocity_after(velocity)),
                ..parts
            },
            _ => parts,
        }
    }

    /// Delivers the event to every entity that answers to the keyboard, as
    /// a force for the physics engine.
    pub fn run(&self, world: &mut World)
        requires
            world_registered(*old(world)),
        ensures
            world_registered(*final(world)),
            world_spare(*final(world)) == world_spare(*old(world)),
            world_entities(*final(world)) == world_entities(*old(world)).map_values(
                |parts: Parts| self.parts_after(parts),
            ),
    {
        let ghost before = world_entities(*world);
        let query = Query { square: false, velocity: false, control: true };
        let rows = join(world, query);
        let mut i: usize = 0;
        while i < rows.len()
            invariant
                0 <= i <= rows.len(),
                query == (Query { square: false, velocity: false, control: true }),
                lists(rows@, selected(before, query)),
                world_registered(*world),
                world_spare(*world) == world_spare(*old(world)),
                world_entities(*world).dom() == before.dom(),
                forall|k: int|
                    0 <= k < i ==> world_entities(*world)[#[trigger] rows[k].0] == self.parts_after(
                        before[rows[k].0],
                    ),
                forall|id: u32|
                    before.dom().contains(id) && (forall|k: int| 0 <= k < i ==> rows[k].0 != id)
                        ==> world_entities(*world)[id] == before[id],
            decreases rows.len() - i,
        {
            let (id, parts) = rows[i];
            if let Some(control) = parts.control {
                put_control(world, id, self.apply(control));
            }
            i += 1;
        }
        assert forall|id: u32| before.dom().contains(id) implies world_entities(*world)[id]
            == self.parts_after(before[id]) by {
            if forall|k: int| 0 <= k < rows.len() ==> rows[k].0 != id {
                assert(!selected(before, query).dom().contains(id));
            }
        }
    }

    /// Delivers the event to every entity that answers to the keyboard and
    /// has a velocity, as a velocity for the movement system.
    pub fn run_manual(&self, world: &mut World)
        requires
            world_registered(*old(world)),
        ensures
            world_registered(*final(world)),
            world_spare(*final(world)) == world_spare(*old(world)),
            world_entities(*final(world)) == world_entities(*old(world)).map_values(
                |parts: Parts| self.parts_after_manual(parts),
            ),
    {
        let ghost before = world_entities(*world);
        let query = Query { square: false, velocity: true, control: true };
        let rows = join(world, query);
        let mut i: usize = 0;
        while i < rows.len()
            invariant
                0 <= i <= rows.len(),
                query == (Query { square: false, velocity: true, control: true }),
                lists(rows@, selected(before, query)),
                world_registered(*world),
                world_spare(*world) == world_spare(*old(world)),
                world_entities(*world).dom() == before.dom(),
                forall|k: int|
                    0 <= k < i ==> world_entities(*world)[#[trigger] rows[k].0]
                        == self.parts_after_manual(before[rows[k].0]),
                forall|id: u32|
                    before.dom().contains(id) && (forall|k: int| 0 <= k < i ==> rows[k].0 != id)
                        ==> world_entities(*world)[id] == before[id],
            decreases rows.len() - i,
        {
            let (id, parts) = rows[i];
            if let Some(velocity) = parts.velocity {
                put_velocity(world, id, self.apply_manual(velocity));
            }
            i += 1;
        }
        assert forall|id: u32| before.dom().contains(id) implies world_entities(*world)[id]
            == self.parts_after_manual(before[id]) by {
            if forall|k: int| 0 <= k < rows.len() ==> rows[k].0 != id {
                assert(!selected(before, query).dom().contains(id));
            }
        }
    }
}

/// Law: an arrow key that comes up clears its whole axis, whatever an
/// earlier event `held` left there, also when `held` was the opposite arrow
/// going down; the other axis keeps what `held` left. A key that is not an
/// arrow changes nothing.
pub proof fn lemma_release_clears_axis(
    held: ControlSystem,
    released: ControlSystem,
    control: Controllable,
    velocity: Velocity,
)
    requires
        !released.down_event,
    ensures
        released.keycode == Keycode::Up || released.keycode == Keycode::Down
            ==> released.force_after(held.force_after(control)) == (Controllable {
            x: held.force_after(control).x,
            y: 0,
        }),
        released.keycode == Keycode::Up || released.keycode == Keycode::Down
            ==> released.velocity_after(held.velocity_after(velocity)) == (Velocity {
            x: held.velocity_after(velocity).x,
            y: 0,
        }),
        released.keycode == Keycode::Left || released.keycode == Keycode::Right
            ==> released.force_after(held.force_after(control)) == (Controllable {
            x: 0,
            y: held.force_after(control).y,
        }),
        released.keycode == Keycode::Left || released.keycode == Keycode::Right
            ==> released.velocity_after(held.velocity_after(velocity)) == (Velocity {
            x: 0,
            y: held.velocity_after(velocity).y,
        }),
        released.keycode == Keycode::Other ==> released.force_after(held.force_after(control))
            == held.force_after(control),
        released.keycode == Keycode::Other ==> released.velocity_after(
            held.velocity_after(velocity),
        ) == held.velocity_after(velocity),
{
}

/// Law: the last event wins. What an arrow key leaves on its axis does not
/// depend on what an earlier event `first` left there.
pub proof fn lemma_last_event_wins(
    first: ControlSystem,
    second: ControlSystem,
    control: Controllable,
    velocity: Velocity,
)
    ensures
        second.keycode == Keycode::Up || second.keycode == Keycode::Down ==> second.force_after(
            first.force_after(control),
        ).y == second.force_after(control).y && second.velocity_after(
            first.velocity_after(velocity),
        ).y == second.velocity_after(velocity).y,
        second.keycode == Keycode::Left || second.keycode == Keycode::Right
            ==> second.force_after(first.force_after(control)).x == second.force_after(control).x
            && second.velocity_after(first.velocity_after(velocity)).x == second.velocity_after(
            velocity,
        ).x,
{
}

/// Law: an arrow key that goes down sets its axis to the magnitude of the
/// mode, signed by its direction, and leaves the other axis alone.
pub proof fn lemma_press_sets_axis(pressed: ControlSystem, control: Controllable, velocity: Velocity)
    requires
        pressed.down_event,
    ensures
        pressed.keycode == Keycode::Right ==> pressed.force_after(control).x == FORCE
            && pressed.force_after(control).y == control.y,
        pressed.keycode == Keycode::Left ==> pressed.force_after(control).x == -FORCE
            && pressed.force_after(control).y == control.y,
        pressed.keycode == Keycode::Down ==> pressed.force_after(control).x == control.x
            && pressed.force_after(control).y == FORCE,
        pressed.keycode == Keycode::Up ==> pressed.force_after(control).x == control.x
            && pressed.force_after(control).y == -FORCE,
        pressed.keycode == Keycode::Right ==> pressed.velocity_after(velocity).x == SPEED
            && pressed.velocity_after(velocity).y == velocity.y,
        pressed.keycode == Keycode::Left ==> pressed.velocity_after(velocity).x == -SPEED
            && pressed.velocity_after(velocity).y == velocity.y,
        pressed.keycode == Keycode::Down ==> pressed.velocity_after(velocity).x == velocity.x
            && pressed.velocity_after(velocity).y == SPEED,
        pressed.keycode == Keycode::Up ==> pressed.velocity_after(velocity).x == velocity.x
            && pressed.velocity_after(velocity).y == -SPEED,
{
}

} // verus!
