use vstd::prelude::*;

use crate::units::{clamp_spec, div_trunc, DEAD_ZONE, TICKS_PER_SECOND, UNIT};

verus! {

/// A quarter turn, in microradians.
pub const QUARTER_TURN: i64 = 1_570_796;

/// Angular speed of the aim at full deflection, in microradians per second.
pub const AIMING_SPEED: i64 = 2_000_000;

/// The aim angle of a character and the range it is kept in.
#[derive(PartialEq, Eq, Structural, Clone, Copy, Debug)]
pub struct Aiming {
    pub angle: i64,
    pub max_angle: i64,
    pub min_angle: i64,
}

/// Marks a child entity that is turned to its parent's aim angle.
#[derive(PartialEq, Eq, Structural, Clone, Copy, Debug)]
pub struct AimingChild;

/// Change of the aim angle in one tick for vertical input `y`.
pub open spec fn aim_delta(y: int) -> int {
    div_trunc(y * AIMING_SPEED, UNIT * TICKS_PER_SECOND)
}

/// The aim after one tick of vertical input `y`.
pub open spec fn aim_after(a: Aiming, y: int) -> Aiming {
    if y > DEAD_ZONE || y < -DEAD_ZONE {
        Aiming {
            angle: clamp_spec(a.angle + aim_delta(y), a.min_angle as int, a.max_angle as int) as i64,
            ..a
        }
    } else {
        a
    }
}

impl Aiming {
    pub open spec fn wf(&self) -> bool {
        self.min_angle <= self.angle <= self.max_angle
    }

    pub fn new() -> (r: Aiming)
        ensures
            r.angle == 0,
            r.max_angle == QUARTER_TURN,
            r.min_angle == -QUARTER_TURN,
            r.wf(),
    {
        Aiming { angle: 0, max_angle: QUARTER_TURN, min_angle: -QUARTER_TURN }
    }

    /// Turns the aim by vertical input `y` held for one tick, within `[min_angle, max_angle]`.
    pub fn change_aim(&mut self, y: i32)
        ensures
            *final(self) == aim_after(*old(self), y as int),
            (y > DEAD_ZONE || y < -DEAD_ZONE) && old(self).min_angle <= old(self).max_angle
                ==> final(self).min_angle <= final(self).angle <= final(self).max_angle,
            old(self).wf() ==> final(self).wf(),
    {
        if y > DEAD_ZONE || y < -DEAD_ZONE {
            let delta: i64 = (y as i64 * AIMING_SPEED) / (UNIT * TICKS_PER_SECOND as i64);
            let raised: i128 = self.angle as i128 + delta as i128;
            self.angle = if raised < self.min_angle as i128 {
                self.min_angle
            } else if raised > self.max_angle as i128 {
                self.max_angle
            } else {
                raised as i64
            };
        }
    }
}

impl Default for Aiming {
    fn default() -> (r: Aiming)
        ensures
            r.angle == 0,
            r.max_angle == QUARTER_TURN,
            r.min_angle == -QUARTER_TURN,
    {
        Aiming::new()
    }
}

} // verus!
