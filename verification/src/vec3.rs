//! Points and offsets on the integer millimetre lattice the LED layout lives on.
use vstd::prelude::*;

verus! {

/// A point (or an offset between points) in 3D space.
#[derive(Debug, Clone, Copy, PartialEq, Eq, Structural)]
pub struct Vec3 {
    pub x: i32,
    pub y: i32,
    pub z: i32,
}

impl Vec3 {
    pub fn new(x: i32, y: i32, z: i32) -> (r: Self)
        ensures
            r == (Vec3 { x, y, z }),
    {
        Vec3 { x, y, z }
    }
}

} // verus!
