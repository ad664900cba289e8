//! Tile addressing on the Web Mercator grid.
//!
//! A tile at zoom level `z` covers a `2^(MAX_ZOOM - z)` by `2^(MAX_ZOOM - z)`
//! block of tiles at the deepest zoom level. These functions do the integer
//! index arithmetic: blowing a tile up into its deepest-zoom range, turning a
//! pixel position into a tile index, and taking the bounding box of two tiles.

use vstd::prelude::*;

verus! {

use vstd::arithmetic::power2::pow2;
use vstd::arithmetic::power2::lemma_pow2_adds;
use vstd::arithmetic::power2::lemma2_to64;
use vstd::arithmetic::power2::lemma_pow2_pos;
use vstd::arithmetic::power2::lemma_pow2_strictly_increases;
use vstd::arithmetic::mul::lemma_mul_inequality;
use vstd::arithmetic::div_mod::lemma_multiply_divide_lt;
use vstd::bits::lemma_u32_shl_is_mul;

/// Deepest zoom level at which tiles are addressed.
pub const MAX_ZOOM: u8 = 18;

/// Width and height of one tile, in pixels.
pub const TILE_SIZE: u32 = 256;

/// A square piece of the world map at a given zoom level.
#[derive(Eq, PartialEq, Structural, Debug)]
pub struct Tile {
    pub zoom: u8,
    pub x: u32,
    pub y: u32,
}

/// An inclusive rectangle of tile indices at the deepest zoom level.
#[derive(Eq, PartialEq, Structural, Debug)]
pub struct TileRange {
    pub min_x: u32,
    pub max_x: u32,
    pub min_y: u32,
    pub max_y: u32,
}

/// A tile is addressable: its zoom is in range and its indices lie on the
/// `2^zoom` by `2^zoom` grid of that zoom level.
pub open spec fn tile_wf(t: Tile) -> bool {
    &&& t.zoom <= MAX_ZOOM
    &&& (t.x as nat) < pow2(t.zoom as nat)
    &&& (t.y as nat) < pow2(t.zoom as nat)
}

/// Return the range of all smallest tiles that are covered by a given tile.
pub fn tile_to_max_zoom_tile_range(tile: &Tile) -> (r: TileRange)
    requires
        tile_wf(*tile),
    ensures
        r.min_x == tile.x * pow2((MAX_ZOOM - tile.zoom) as nat),
        r.min_y == tile.y * pow2((MAX_ZOOM - tile.zoom) as nat),
        r.max_x == r.min_x + pow2((MAX_ZOOM - tile.zoom) as nat) - 1,
        r.max_y == r.min_y + pow2((MAX_ZOOM - tile.zoom) as nat) - 1,
{
    let shift: u8 = MAX_ZOOM - tile.zoom;
    proof {
        let z = tile.zoom as nat;
        let s = shift as nat;
        lemma2_to64();
        lemma_pow2_adds(z, s);
        lemma_pow2_pos(z);
        lemma_pow2_pos(s);
        if s < MAX_ZOOM as nat {
            lemma_pow2_strictly_increases(s, MAX_ZOOM as nat);
        }
        lemma_u32_shl_is_mul(1u32, shift as u32);
        // The blown-up index stays below 2^MAX_ZOOM, hence far below u32::MAX:
        // x * 2^shift <= (2^zoom - 1) * 2^shift == 2^MAX_ZOOM - 2^shift.
        lemma_mul_inequality(tile.x as int, pow2(z) as int - 1, pow2(s) as int);
        lemma_mul_inequality(tile.y as int, pow2(z) as int - 1, pow2(s) as int);
        assert((pow2(z) as int - 1) * pow2(s) as int
            == pow2(z) as int * pow2(s) as int - pow2(s) as int) by (nonlinear_arith);
    }
    let factor: u32 = 1u32 << (shift as u32);
    let min_x = tile.x * factor;
    let min_y = tile.y * factor;
    let delta = factor - 1;
    TileRange { min_x, max_x: min_x + delta, min_y, max_y: min_y + delta }
}

/// The smallest tile that contains a given pixel of the deepest-zoom map.
pub fn max_zoom_tile_of_xy(x: u32, y: u32) -> (t: Tile)
    requires
        (x as nat) < TILE_SIZE as nat * pow2(MAX_ZOOM as nat),
        (y as nat) < TILE_SIZE as nat * pow2(MAX_ZOOM as nat),
    ensures
        t.zoom == MAX_ZOOM,
        t.x == x as int / TILE_SIZE as int,
        t.y == y as int / TILE_SIZE as int,
        tile_wf(t),
{
    proof {
        lemma2_to64();
        lemma_multiply_divide_lt(x as int, TILE_SIZE as int, pow2(MAX_ZOOM as nat) as int);
        lemma_multiply_divide_lt(y as int, TILE_SIZE as int, pow2(MAX_ZOOM as nat) as int);
    }
    Tile { zoom: MAX_ZOOM, x: x / TILE_SIZE, y: y / TILE_SIZE }
}

/// The bounding box, at the deepest zoom level, of two deepest-zoom tiles.
pub fn max_zoom_tile_range_of_pair(tile1: &Tile, tile2: &Tile) -> (r: TileRange)
    ensures
        r.min_x == if tile1.x <= tile2.x { tile1.x } else { tile2.x },
        r.max_x == if tile1.x <= tile2.x { tile2.x } else { tile1.x },
        r.min_y == if tile1.y <= tile2.y { tile1.y } else { tile2.y },
        r.max_y == if tile1.y <= tile2.y { tile2.y } else { tile1.y },
{
    let (min_x, max_x) = if tile1.x <= tile2.x {
        (tile1.x, tile2.x)
    } else {
        (tile2.x, tile1.x)
    };
    let (min_y, max_y) = if tile1.y <= tile2.y {
        (tile1.y, tile2.y)
    } else {
        (tile2.y, tile1.y)
    };
    TileRange { min_x, max_x, min_y, max_y }
}

} // verus!
