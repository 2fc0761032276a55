//! The data attached to entities.

use vstd::prelude::*;

verus! {

/// `specs::VecStorage`, the storage every component of this crate uses.
/// Nothing is assumed of it: component data is reached through the functions
/// of `crate::store` only.
#[verifier::external_type_specification]
#[verifier::external_body]
#[verifier::reject_recursive_types(T)]
pub struct ExVecStorage<T>(specs::VecStorage<T>);

/// Render-facing shape of a body: an axis-aligned rectangle of
/// `width` x `height` units placed at (`x`, `y`).
#[derive(Clone, Copy, Debug, PartialEq, Eq, Structural)]
pub struct Square {
    pub width: i32,
    pub height: i32,
    pub x: i32,
    pub y: i32,
}

/// Linear velocity of a body, in units per time unit.
#[derive(Clone, Copy, Debug, PartialEq, Eq, Structural)]
pub struct Velocity {
    pub x: i32,
    pub y: i32,
}

/// Marks the entity that answers to the keyboard and carries the force the
/// keys currently ask for.
#[derive(Clone, Copy, Debug, PartialEq, Eq, Structural)]
pub struct Controllable {
    pub x: i32,
    pub y: i32,
}

impl specs::Component for Square {
    type Storage = specs::VecStorage<Self>;
}

impl specs::Component for Velocity {
    type Storage = specs::VecStorage<Self>;
}

impl specs::Component for Controllable {
    type Storage = specs::VecStorage<Self>;
}

} // verus!
