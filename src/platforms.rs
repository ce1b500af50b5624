use vstd::prelude::*;

use crate::units::Vector;

verus! {

/// Texture indices of the tiles that are solid platforms.
pub const PLATFORM_TEXTURE_A: u32 = 2;
pub const PLATFORM_TEXTURE_B: u32 = 3;

/// Offset from a tile's corner to where its collider sits, in thousandths of a pixel.
pub const TILE_CENTER_OFFSET: i64 = 8_000;

/// Half-extents of a platform collider.
pub const PLATFORM_HALF_WIDTH: i64 = 9_000;
pub const PLATFORM_HALF_HEIGHT: i64 = 1_000;

/// A cell of a tile map: its grid position and texture index.
#[derive(PartialEq, Eq, Structural, Clone, Copy, Debug)]
pub struct TileInfo {
    pub x: u32,
    pub y: u32,
    pub texture: u32,
}

/// A static collider for a platform tile, placed relative to the map's transform.
#[derive(PartialEq, Eq, Structural, Clone, Copy, Debug)]
pub struct PlatformCollider {
    pub offset: Vector,
    pub half_extents: Vector,
}

pub open spec fn is_platform(t: TileInfo) -> bool {
    t.texture == PLATFORM_TEXTURE_A || t.texture == PLATFORM_TEXTURE_B
}

pub open spec fn collider_for(t: TileInfo, grid_w: int, grid_h: int) -> PlatformCollider {
    PlatformCollider {
        offset: Vector {
            x: (t.x * grid_w + TILE_CENTER_OFFSET) as i64,
            y: (t.y * grid_h + TILE_CENTER_OFFSET) as i64,
        },
        half_extents: Vector { x: PLATFORM_HALF_WIDTH, y: PLATFORM_HALF_HEIGHT },
    }
}

/// The colliders of the platform tiles among `tiles`, in order; empty cells and
/// other textures give none.
pub open spec fn colliders_of(tiles: Seq<Option<TileInfo>>, grid_w: int, grid_h: int) -> Seq<
    PlatformCollider,
>
    decreases tiles.len(),
{
    if tiles.len() == 0 {
        Seq::empty()
    } else {
        let r = colliders_of(tiles.drop_last(), grid_w, grid_h);
        match tiles.last() {
            Some(t) => if is_platform(t) {
                r.push(collider_for(t, grid_w, grid_h))
            } else {
                r
            },
            None => r,
        }
    }
}

/// Colliders for the platform tiles of a map whose cells are `grid_w` by `grid_h`
/// thousandths of a pixel.
pub fn add_tiled_colliders(tiles: &Vec<Option<TileInfo>>, grid_w: u32, grid_h: u32) -> (r: Vec<
    PlatformCollider,
>)
    requires
        forall|i: int|
            0 <= i < tiles@.len() ==> (#[trigger] tiles@[i] matches Some(t) ==> t.x * grid_w
                + TILE_CENTER_OFFSET <= i64::MAX && t.y * grid_h + TILE_CENTER_OFFSET <= i64::MAX),
    ensures
        r@ == colliders_of(tiles@, grid_w as int, grid_h as int),
{
    let mut out: Vec<PlatformCollider> = Vec::new();
    let n = tiles.len();
    for i in 0..n
        invariant
            n == tiles@.len(),
            forall|i: int|
                0 <= i < tiles@.len() ==> (#[trigger] tiles@[i] matches Some(t) ==> t.x * grid_w
                    + TILE_CENTER_OFFSET <= i64::MAX && t.y * grid_h + TILE_CENTER_OFFSET
                    <= i64::MAX),
            out@ == colliders_of(tiles@.take(i as int), grid_w as int, grid_h as int),
    {
        assert(tiles@.take(i + 1).drop_last() =~= tiles@.take(i as int));
        if let Some(t) = tiles[i] {
            assert(tiles@[i as int] matches Some(t));
            if t.texture == PLATFORM_TEXTURE_A || t.texture == PLATFORM_TEXTURE_B {
                let x = t.x as u64 * grid_w as u64 + TILE_CENTER_OFFSET as u64;
                let y = t.y as u64 * grid_h as u64 + TILE_CENTER_OFFSET as u64;
                out.push(
                    PlatformCollider {
                        offset: Vector { x: x as i64, y: y as i64 },
                        half_extents: Vector { x: PLATFORM_HALF_WIDTH, y: PLATFORM_HALF_HEIGHT },
                    },
                );
            }
        }
    }
    assert(tiles@.take(n as int) =~= tiles@);
    out
}

} // verus!
