//! The three rotation axes a joint can turn about.

use vstd::prelude::*;

verus! {

/// A fixed rotation axis in a joint's local frame.
#[derive(Clone, Copy, Debug, PartialEq, Eq, Structural)]
pub enum Axis {
    X,
    Y,
    Z,
}

/// A direction with integer components.
#[derive(Clone, Copy, Debug, PartialEq, Eq, Structural)]
pub struct Direction {
    pub x: i32,
    pub y: i32,
    pub z: i32,
}

impl Axis {
    /// The unit direction of the axis, as a mathematical triple.
    pub open spec fn unit(self) -> (int, int, int) {
        match self {
            Axis::X => (1, 0, 0),
            Axis::Y => (0, 1, 0),
            Axis::Z => (0, 0, 1),
        }
    }

    /// The unit direction of the axis.
    pub fn to_vec3(&self) -> (v: Direction)
        ensures
            (v.x as int, v.y as int, v.z as int) == self.unit(),
    {
        match *self {
            Axis::X => Direction { x: 1, y: 0, z: 0 },
            Axis::Y => Direction { x: 0, y: 1, z: 0 },
            Axis::Z => Direction { x: 0, y: 0, z: 1 },
        }
    }
}

} // verus!
