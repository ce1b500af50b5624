use vstd::prelude::*;

use crate::units::DEAD_ZONE;

verus! {

/// Which way a character looks; drives the sprite flip and the arm's orientation.
#[derive(PartialEq, Eq, Structural, Clone, Copy, Debug)]
pub enum Facing {
    Left,
    Right,
}

/// The facing after horizontal input `x`: it only turns once `x` leaves the dead-zone.
pub open spec fn facing_after(f: Facing, x: int) -> Facing {
    if x > DEAD_ZONE {
        Facing::Right
    } else if x < -DEAD_ZONE {
        Facing::Left
    } else {
        f
    }
}

impl Default for Facing {
    fn default() -> (r: Facing)
        ensures
            r == Facing::Right,
    {
        Facing::Right
    }
}

impl Facing {
    pub fn is_left(&self) -> (r: bool)
        ensures
            r == (*self == Facing::Left),
    {
        *self == Facing::Left
    }

    pub fn set(&mut self, facing: Facing)
        ensures
            *final(self) == facing,
    {
        *self = facing;
    }

    /// Turns toward the sign of the horizontal input when it leaves the dead-zone.
    pub fn follow_axis(&mut self, x: i32)
        ensures
            *final(self) == facing_after(*old(self), x as int),
    {
        if x > DEAD_ZONE {
            self.set(Facing::Right);
        } else if x < -DEAD_ZONE {
            self.set(Facing::Left);
        }
    }

    /// The horizontal scale that mirrors the sprite for this facing.
    pub fn scale_x(&self) -> (r: i64)
        ensures
            r == (if *self == Facing::Left { -1int } else { 1int }),
    {
        if self.is_left() {
            -1
        } else {
            1
        }
    }
}


/// Input inside the dead-zone never turns a character, and a turn only ever
/// comes from input beyond it.
pub proof fn lemma_facing_dead_zone(f: Facing, x: int)
    ensures
        -DEAD_ZONE <= x <= DEAD_ZONE ==> facing_after(f, x) == f,
        facing_after(f, x) != f ==> x > DEAD_ZONE || x < -DEAD_ZONE,
        facing_after(facing_after(f, x), x) == facing_after(f, x),
{
}

} // verus!
