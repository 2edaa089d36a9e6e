//! The first-person camera: which way the pressed keys ask to move.

use vstd::prelude::*;

verus! {

/// Marks the entity that the first-person camera follows.
pub struct FPSCameraComponent {}

/// The direction that the pressed keys ask for, before it is turned by the
/// camera: forward and back along `z`, left and right along `x`. Keys that
/// pull in opposite directions cancel out.
#[derive(Clone, Copy, Debug, PartialEq, Eq, Structural)]
pub struct MovementDirection {
    pub x: i8,
    pub z: i8,
}

/// One if `flag` holds, else zero.
pub open spec fn one_if(flag: bool) -> int {
    if flag {
        1
    } else {
        0
    }
}

/// The direction that the keys W, S, A and D ask for.
pub fn fps_camera_movement(w: bool, s: bool, a: bool, d: bool) -> (direction: MovementDirection)
    ensures
        direction.z == one_if(w) - one_if(s),
        direction.x == one_if(a) - one_if(d),
{
    let mut x: i8 = 0;
    let mut z: i8 = 0;
    if w {
        z = z + 1;
    }
    if s {
        z = z - 1;
    }
    if a {
        x = x + 1;
    }
    if d {
        x = x - 1;
    }
    MovementDirection { x, z }
}

impl MovementDirection {
    /// Whether the direction asks to move at all.
    pub fn is_moving(&self) -> (moving: bool)
        ensures
            moving == (self.x != 0 || self.z != 0),
    {
        self.x != 0 || self.z != 0
    }
}

} // verus!
