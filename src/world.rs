use vstd::prelude::*;

use crate::store::Entity;
use crate::units::{Transform, Vector};

verus! {

/// Width of the world, in thousandths of a pixel.
pub const WORLD_WIDTH: i64 = 960_000;

/// Height of the world, in thousandths of a pixel.
pub const WORLD_HEIGHT: i64 = 540_000;

/// Size of the world, centred on the origin.
#[derive(PartialEq, Eq, Structural, Clone, Copy, Debug)]
pub struct GameWorld {
    pub width: i64,
    pub height: i64,
}

impl GameWorld {
    pub open spec fn wf(&self) -> bool {
        self.width >= 0 && self.height >= 0
    }
}

impl Default for GameWorld {
    fn default() -> (r: GameWorld)
        ensures
            r.width == WORLD_WIDTH,
            r.height == WORLD_HEIGHT,
    {
        GameWorld { width: WORLD_WIDTH, height: WORLD_HEIGHT }
    }
}

/// Marks an entity kept inside the world's bounds.
#[derive(PartialEq, Eq, Structural, Clone, Copy, Debug)]
pub struct ClampToWorld;

/// Position on one axis after wrap-around, for a world of `size` and an entity of
/// half-extent `ext`: past one edge by more than `ext`, it reappears that far past the
/// other.
pub open spec fn wrap_axis(p: int, size: int, ext: int) -> int {
    let limit = size / 2 + ext;
    if p > limit {
        -limit
    } else if p < -limit {
        limit
    } else {
        p
    }
}

pub open spec fn wrapped(e: Entity, world: GameWorld) -> Entity {
    match e.half_extents {
        Some(ext) => Entity {
            transform: Transform {
                translation: Vector {
                    x: wrap_axis(e.transform.translation.x as int, world.width as int, ext.x as int) as i64,
                    y: wrap_axis(e.transform.translation.y as int, world.height as int, ext.y as int) as i64,
                },
                ..e.transform
            },
            ..e
        },
        None => e,
    }
}

pub fn wrap_coordinate(p: i64, size: i64, ext: i64) -> (r: i64)
    requires
        size >= 0,
        ext >= 0,
    ensures
        r == wrap_axis(p as int, size as int, ext as int),
{
    let limit: i128 = (size / 2) as i128 + ext as i128;
    if p as i128 > limit {
        (-limit) as i64
    } else if (p as i128) < -limit {
        limit as i64
    } else {
        p
    }
}

/// Teleports an entity with a collider to the opposite edge once it has left the
/// world on an axis; each axis independently, velocity untouched.
pub fn wrap_around_world(e: &mut Entity, world: &GameWorld)
    requires
        world.wf(),
        old(e).half_extents matches Some(ext) ==> ext.x >= 0 && ext.y >= 0,
    ensures
        *final(e) == wrapped(*old(e), *world),
{
    if let Some(ext) = e.half_extents {
        let x = wrap_coordinate(e.transform.translation.x, world.width, ext.x);
        let y = wrap_coordinate(e.transform.translation.y, world.height, ext.y);
        e.transform.translation = Vector { x, y };
    }
}


/// Wrap-around on one axis: leaving past `size / 2 + ext` on one side puts the
/// entity exactly that far out on the other, in both directions; inside those
/// bounds nothing moves.
pub proof fn lemma_wrap_crossing(p: int, size: int, ext: int)
    requires
        size >= 0,
        ext >= 0,
    ensures
        p > size / 2 + ext ==> wrap_axis(p, size, ext) == -(size / 2 + ext),
        p < -(size / 2 + ext) ==> wrap_axis(p, size, ext) == size / 2 + ext,
        -(size / 2 + ext) <= p <= size / 2 + ext ==> wrap_axis(p, size, ext) == p,
{
}

/// The two axes wrap independently: each coordinate after the wrap depends only on
/// that coordinate, the world's size along it and the extent along it.
pub proof fn lemma_wrap_axes_independent(e: Entity, world: GameWorld)
    requires
        world.wf(),
        e.half_extents matches Some(h) && h.x >= 0 && h.y >= 0,
    ensures
        wrapped(e, world).transform.translation.x == wrap_axis(
            e.transform.translation.x as int,
            world.width as int,
            e.half_extents.unwrap().x as int,
        ),
        wrapped(e, world).transform.translation.y == wrap_axis(
            e.transform.translation.y as int,
            world.height as int,
            e.half_extents.unwrap().y as int,
        ),
        wrapped(e, world).velocity == e.velocity,
{
}

} // verus!
