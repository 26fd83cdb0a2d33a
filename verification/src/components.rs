//! The component vocabulary: two data components and two markers.

use vstd::prelude::*;

verus! {

/// A number held as the bit pattern of an IEEE-754 double-precision value.
/// The library never computes with it; it only carries it from a document to
/// a component slot, and whoever reads the slot narrows it as needed.
#[derive(Clone, Copy, Debug, PartialEq, Eq, Structural)]
pub struct Scalar {
    pub bits: u64,
}

/// Component: position of an entity.
#[derive(Clone, Copy, Debug, PartialEq, Eq, Structural)]
pub struct Position {
    pub x: Scalar,
    pub y: Scalar,
}

/// Component: velocity of an entity.
#[derive(Clone, Copy, Debug, PartialEq, Eq, Structural)]
pub struct Velocity {
    pub vx: Scalar,
    pub vy: Scalar,
}

/// Marker component: the entity is a unit.
#[derive(Clone, Copy, Debug, PartialEq, Eq, Structural)]
pub struct Unit;

/// Marker component: the entity is a vehicle.
#[derive(Clone, Copy, Debug, PartialEq, Eq, Structural)]
pub struct Vehicle;

} // verus!
