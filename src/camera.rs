use vstd::prelude::*;

use crate::store::{Entity, World};
use crate::units::{clamp_spec, div_trunc, Vector};
use crate::world::GameWorld;

verus! {

/// Distance between camera and targets that the camera tolerates without moving.
pub const CAMERA_SLACK: i64 = 50_000;

/// The camera closes this many thousandths of the gap to its targets per second.
pub const FOLLOW_RATE: i64 = 1_500;

/// Microseconds per second.
pub const MICROS: i64 = 1_000_000;

/// Marks an entity the camera keeps in frame.
#[derive(PartialEq, Eq, Structural, Clone, Copy, Debug)]
pub struct CameraTarget {
    pub radius: i64,
}

impl CameraTarget {
    pub fn with_radius(radius: i64) -> (r: CameraTarget)
        ensures
            r.radius == radius,
    {
        CameraTarget { radius }
    }
}

pub open spec fn coord(v: Vector, horizontal: bool) -> int {
    if horizontal {
        v.x as int
    } else {
        v.y as int
    }
}

/// Smallest coordinate along one axis; the largest `i64` for no point.
pub open spec fn min_coord(s: Seq<Vector>, horizontal: bool) -> int
    decreases s.len(),
{
    if s.len() == 0 {
        i64::MAX as int
    } else {
        let m = min_coord(s.drop_last(), horizontal);
        if coord(s.last(), horizontal) < m {
            coord(s.last(), horizontal)
        } else {
            m
        }
    }
}

/// Largest coordinate along one axis; the smallest `i64` for no point.
pub open spec fn max_coord(s: Seq<Vector>, horizontal: bool) -> int
    decreases s.len(),
{
    if s.len() == 0 {
        i64::MIN as int
    } else {
        let m = max_coord(s.drop_last(), horizontal);
        if coord(s.last(), horizontal) > m {
            coord(s.last(), horizontal)
        } else {
            m
        }
    }
}

/// Middle of the targets' bounding box along one axis; the origin for no target.
pub open spec fn center_of(s: Seq<Vector>, horizontal: bool) -> int {
    if s.len() == 0 {
        0
    } else {
        div_trunc(min_coord(s, horizontal) + max_coord(s, horizontal), 2)
    }
}

/// Whether the camera moves along an axis: the centre is more than the slack away.
pub open spec fn moves(cam: int, center: int) -> bool {
    cam - center > CAMERA_SLACK || center - cam > CAMERA_SLACK
}

/// Camera coordinate after a frame of `dt` microseconds: once the centre is more
/// than the slack away, the camera closes part of the gap, staying within `[lo, hi]`.
pub open spec fn follow_axis(cam: int, center: int, dt: int, lo: int, hi: int) -> int {
    if moves(cam, center) {
        clamp_spec(cam + div_trunc((center - cam) * dt * FOLLOW_RATE, 1000 * MICROS), lo, hi)
    } else {
        cam
    }
}

/// Half the visible extent along an axis of `viewport` logical length at `zoom`.
pub open spec fn half_view(viewport: int, zoom: int) -> int {
    viewport / zoom / 2
}

/// The camera position after one frame.
pub open spec fn camera_after(
    camera: Vector,
    targets: Seq<Vector>,
    viewport: Vector,
    zoom: int,
    dt: int,
    world: GameWorld,
) -> Vector {
    Vector {
        x: follow_axis(
            camera.x as int,
            center_of(targets, true),
            dt,
            half_view(viewport.x as int, zoom),
            world.width - half_view(viewport.x as int, zoom),
        ) as i64,
        y: follow_axis(
            camera.y as int,
            center_of(targets, false),
            dt,
            half_view(viewport.y as int, zoom),
            world.height - half_view(viewport.y as int, zoom),
        ) as i64,
    }
}

fn follow_coordinate(cam: i64, center: i64, dt: u32, lo: i64, hi: i64) -> (r: i64)
    requires
        cam - center > CAMERA_SLACK || center - cam > CAMERA_SLACK ==> lo <= hi,
    ensures
        r == follow_axis(cam as int, center as int, dt as int, lo as int, hi as int),
{
    let gap: i128 = center as i128 - cam as i128;
    if gap > CAMERA_SLACK as i128 || -gap > CAMERA_SLACK as i128 {
        assert(-0x1_0000_0000_0000_0000 <= gap <= 0x1_0000_0000_0000_0000);
        assert(0 <= dt as int * FOLLOW_RATE <= 0x1_0000_0000 * 2000) by (nonlinear_arith)
            requires
                0 <= dt <= 0xffff_ffff,
        ;
        let scaled: i128 = dt as i128 * FOLLOW_RATE as i128;
        assert(-0x1_0000_0000_0000_0000 * (0x1_0000_0000 * 2000) <= gap * scaled
            <= 0x1_0000_0000_0000_0000 * (0x1_0000_0000 * 2000)) by (nonlinear_arith)
            requires
                -0x1_0000_0000_0000_0000 <= gap <= 0x1_0000_0000_0000_0000,
                0 <= scaled <= 0x1_0000_0000 * 2000,
        ;
        let step: i128 = (gap * scaled) / (1000 * MICROS as i128);
        assert((center - cam) * dt * FOLLOW_RATE == gap * scaled) by (nonlinear_arith)
            requires
                gap == center - cam,
                scaled == dt * FOLLOW_RATE,
        ;
        let moved: i128 = cam as i128 + step;
        if moved < lo as i128 {
            lo
        } else if moved > hi as i128 {
            hi
        } else {
            moved as i64
        }
    } else {
        cam
    }
}

/// Moves the camera toward the middle of its targets after a frame of `dt`
/// microseconds, keeping the view of `viewport` logical size at `zoom` inside the world.
pub fn follow_targets(
    camera: Vector,
    targets: &Vec<Vector>,
    viewport: Vector,
    zoom: i64,
    dt: u32,
    world: &GameWorld,
) -> (r: Vector)
    requires
        world.wf(),
        zoom > 0,
        viewport.x >= 0,
        viewport.y >= 0,
        moves(camera.x as int, center_of(targets@, true)) ==> half_view(viewport.x as int, zoom as int)
            <= world.width - half_view(viewport.x as int, zoom as int),
        moves(camera.y as int, center_of(targets@, false)) ==> half_view(viewport.y as int, zoom as int)
            <= world.height - half_view(viewport.y as int, zoom as int),
    ensures
        r == camera_after(camera, targets@, viewport, zoom as int, dt as int, *world),
{
    let mut min_x: i64 = i64::MAX;
    let mut max_x: i64 = i64::MIN;
    let mut min_y: i64 = i64::MAX;
    let mut max_y: i64 = i64::MIN;
    let n = targets.len();
    for i in 0..n
        invariant
            n == targets@.len(),
            min_x == min_coord(targets@.take(i as int), true),
            max_x == max_coord(targets@.take(i as int), true),
            min_y == min_coord(targets@.take(i as int), false),
            max_y == max_coord(targets@.take(i as int), false),
    {
        let p = targets[i];
        assert(targets@.take(i + 1).drop_last() =~= targets@.take(i as int));
        if p.x < min_x {
            min_x = p.x;
        }
        if p.x > max_x {
            max_x = p.x;
        }
        if p.y < min_y {
            min_y = p.y;
        }
        if p.y > max_y {
            max_y = p.y;
        }
    }
    assert(targets@.take(n as int) =~= targets@);
    let (cx, cy): (i64, i64) = if n == 0 {
        (0, 0)
    } else {
        (((min_x as i128 + max_x as i128) / 2) as i64, ((min_y as i128 + max_y as i128) / 2) as i64)
    };
    let half_w = viewport.x / zoom / 2;
    let half_h = viewport.y / zoom / 2;
    Vector {
        x: follow_coordinate(camera.x, cx, dt, half_w, world.width - half_w),
        y: follow_coordinate(camera.y, cy, dt, half_h, world.height - half_h),
    }
}

/// Where the camera starts: at the far corner of the world, `(width, height)`.
pub fn setup_camera(world: &GameWorld) -> (r: Vector)
    ensures
        r == (Vector { x: world.width, y: world.height }),
{
    Vector { x: world.width, y: world.height }
}

/// The entities in `s` that the camera follows, in order.
pub open spec fn targets_of(s: Seq<Entity>) -> Seq<Vector>
    decreases s.len(),
{
    if s.len() == 0 {
        Seq::empty()
    } else {
        let r = targets_of(s.drop_last());
        if s.last().camera_target is Some {
            r.push(s.last().transform.translation)
        } else {
            r
        }
    }
}

impl World {
    /// Positions of the entities the camera follows, in creation order.
    pub fn camera_targets(&self) -> (r: Vec<Vector>)
        ensures
            r@ == targets_of(self@.entities),
    {
        let mut out: Vec<Vector> = Vec::new();
        let n = self.entities.len();
        for i in 0..n
            invariant
                n == self.entities@.len(),
                out@ == targets_of(self.entities@.take(i as int)),
        {
            assert(self.entities@.take(i + 1).drop_last() =~= self.entities@.take(i as int));
            if self.entities[i].camera_target.is_some() {
                out.push(self.entities[i].transform.translation);
            }
        }
        assert(self.entities@.take(n as int) =~= self.entities@);
        out
    }
}

} // verus!
