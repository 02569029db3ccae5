//! Tile coordinates, the tile grid of a zoom level, and the window of
//! tiles that covers the visible part of the map.
use vstd::prelude::*;
use vstd::arithmetic::power2::pow2;

verus! {

/// Edge length of one map tile, in pixels.
pub const TILE_SIZE: i64 = 256;

/// How many tiles beyond the visible window a cached tile may lie and still be kept.
pub const KEEP_CACHED_TILES: i64 = 10;

/// The key under which a tile is stored: zoom level, column, row.
/// Tuples order lexicographically, as the tile coordinates do.
pub type TileKey = (u32, i64, i64);

/// A map tile: zoom level `z`, column `x`, row `y`.
#[derive(Clone, Copy, Debug, PartialEq, Eq, Structural)]
pub struct TileCoordinate {
    pub z: u32,
    pub x: i64,
    pub y: i64,
}

impl View for TileCoordinate {
    type V = TileKey;

    open spec fn view(&self) -> TileKey {
        (self.z, self.x, self.y)
    }
}

impl TileCoordinate {
    pub fn new(z: u32, x: i64, y: i64) -> (c: TileCoordinate)
        ensures
            c.z == z,
            c.x == x,
            c.y == y,
    {
        TileCoordinate { z, x, y }
    }

    /// The key of this tile in the tile maps.
    pub fn key(&self) -> (k: TileKey)
        ensures
            k == self@,
    {
        (self.z, self.x, self.y)
    }

    pub fn from_key(k: TileKey) -> (c: TileCoordinate)
        ensures
            c@ == k,
    {
        TileCoordinate { z: k.0, x: k.1, y: k.2 }
    }
}

/// The number of tile columns (and rows) at a zoom level, computed as
/// `1 << zoom` in a signed 64-bit integer, which for zoom 63 is the bit
/// pattern of the smallest `i64`.
pub open spec fn tiles_per_side(zoom: u32) -> int {
    if zoom < 63 {
        pow2(zoom as nat) as int
    } else {
        i64::MIN as int
    }
}

/// `1 << zoom` on a signed 64-bit integer.
pub fn tile_count(zoom: u32) -> (m: i64)
    requires
        zoom < 64,
    ensures
        m == tiles_per_side(zoom),
{
    if zoom == 63 {
        i64::MIN
    } else {
        proof {
            vstd::bits::lemma_u64_pow2_no_overflow(zoom as nat);
            vstd::bits::lemma_u64_shl_is_mul(1, zoom as u64);
            vstd::arithmetic::power2::lemma_pow2_strictly_increases(zoom as nat, 63);
            vstd::arithmetic::power2::lemma2_to64_rest();
        }
        let shifted: u64 = 1u64 << (zoom as u64);
        shifted as i64
    }
}

/// The smaller of two integers.
pub open spec fn min_int(a: int, b: int) -> int {
    if a <= b {
        a
    } else {
        b
    }
}

/// The block of tiles that covers the visible part of the map at one zoom
/// level: columns `min_x .. max_x` and rows `min_y .. max_y`, upper bounds
/// excluded.
#[derive(Clone, Copy, Debug, PartialEq, Eq, Structural)]
pub struct TileWindow {
    pub zoom: u32,
    pub min_x: i64,
    pub min_y: i64,
    pub max_x: i64,
    pub max_y: i64,
}

/// The window for a view whose left and top edges lie in tile column
/// `min_x` and row `min_y`, and whose right and bottom edges lie at or
/// before column `ceil_x` and row `ceil_y`: one more tile is taken on the
/// right and at the bottom, and neither bound passes the edge of the world.
pub open spec fn view_window(zoom: u32, min_x: i64, min_y: i64, ceil_x: i64, ceil_y: i64) -> TileWindow {
    TileWindow {
        zoom,
        min_x,
        min_y,
        max_x: min_int(ceil_x + 1, tiles_per_side(zoom)) as i64,
        max_y: min_int(ceil_y + 1, tiles_per_side(zoom)) as i64,
    }
}

impl TileWindow {
    /// The tile lies in the window.
    pub open spec fn contains(self, k: TileKey) -> bool {
        &&& k.0 == self.zoom
        &&& self.min_x <= k.1 < self.max_x
        &&& self.min_y <= k.2 < self.max_y
    }

    /// The tile is at the window's zoom level and less than
    /// `KEEP_CACHED_TILES` tiles away from it in each direction.
    pub open spec fn keeps(self, k: TileKey) -> bool {
        &&& k.0 == self.zoom
        &&& self.min_x - KEEP_CACHED_TILES < k.1 < self.max_x + KEEP_CACHED_TILES
        &&& self.min_y - KEEP_CACHED_TILES < k.2 < self.max_y + KEEP_CACHED_TILES
    }

    /// The window of the view described by `view_window`.
    pub fn covering(zoom: u32, min_x: i64, min_y: i64, ceil_x: i64, ceil_y: i64) -> (w: TileWindow)
        requires
            zoom < 64,
            ceil_x < i64::MAX,
            ceil_y < i64::MAX,
        ensures
            w == view_window(zoom, min_x, min_y, ceil_x, ceil_y),
    {
        let m = tile_count(zoom);
        let end_x = ceil_x + 1;
        let end_y = ceil_y + 1;
        TileWindow {
            zoom,
            min_x,
            min_y,
            max_x: if end_x <= m { end_x } else { m },
            max_y: if end_y <= m { end_y } else { m },
        }
    }

    /// Whether the window keeps the tile. A bound widened by the margin
    /// past the range of `i64` keeps every column (or row) on that side.
    pub fn keeps_key(&self, k: TileKey) -> (b: bool)
        ensures
            b == self.keeps(k),
    {
        k.0 == self.zoom
            && (self.min_x < i64::MIN + KEEP_CACHED_TILES || k.1 > self.min_x - KEEP_CACHED_TILES)
            && (self.max_x > i64::MAX - KEEP_CACHED_TILES || k.1 < self.max_x + KEEP_CACHED_TILES)
            && (self.min_y < i64::MIN + KEEP_CACHED_TILES || k.2 > self.min_y - KEEP_CACHED_TILES)
            && (self.max_y > i64::MAX - KEEP_CACHED_TILES || k.2 < self.max_y + KEEP_CACHED_TILES)
    }
}

/// Every tile in a window is also kept by it.
pub proof fn lemma_window_kept(w: TileWindow, k: TileKey)
    requires
        w.contains(k),
    ensures
        w.keeps(k),
{
}

/// The world has one tile per side at zoom 0, and each zoom level doubles
/// the number of tiles per side, up to zoom 62.
pub proof fn lemma_tiles_per_side_doubles(zoom: u32)
    requires
        zoom < 62,
    ensures
        tiles_per_side(0) == 1,
        tiles_per_side((zoom + 1) as u32) == 2 * tiles_per_side(zoom),
{
    vstd::arithmetic::power2::lemma2_to64();
    vstd::arithmetic::power2::lemma_pow2_unfold((zoom + 1) as nat);
}

/// A window keeps exactly the tiles at its zoom level whose column and row
/// each lie less than `KEEP_CACHED_TILES` (10) tiles outside its bounds: a
/// tile 10 or more columns, or 10 or more rows, away is not kept.
pub proof fn lemma_keeps_is_near(w: TileWindow, k: TileKey)
    ensures
        w.keeps(k) <==> (k.0 == w.zoom && w.min_x - 10 < k.1 && k.1 < w.max_x + 10 && w.min_y - 10 < k.2 && k.2
            < w.max_y + 10),
        k.2 <= w.min_y - 10 ==> !w.keeps(k),
        k.2 >= w.max_y + 10 ==> !w.keeps(k),
        k.1 <= w.min_x - 10 ==> !w.keeps(k),
        k.1 >= w.max_x + 10 ==> !w.keeps(k),
{
}

/// The window of a view never passes the right or bottom edge of the world
/// (`2^zoom` tiles per side), reaches one tile past the view's last column
/// and row where the world allows, and starts at the view's first column
/// and row.
pub proof fn lemma_view_window_within_world(zoom: u32, min_x: i64, min_y: i64, ceil_x: i64, ceil_y: i64)
    requires
        zoom < 63,
        ceil_x < i64::MAX,
        ceil_y < i64::MAX,
    ensures
        ({
            let w = view_window(zoom, min_x, min_y, ceil_x, ceil_y);
            &&& w.zoom == zoom
            &&& w.min_x == min_x
            &&& w.min_y == min_y
            &&& w.max_x <= pow2(zoom as nat)
            &&& w.max_y <= pow2(zoom as nat)
            &&& w.max_x <= ceil_x + 1
            &&& w.max_y <= ceil_y + 1
            &&& (ceil_x + 1 <= pow2(zoom as nat) ==> w.max_x == ceil_x + 1)
            &&& (ceil_y + 1 <= pow2(zoom as nat) ==> w.max_y == ceil_y + 1)
            &&& (ceil_x + 1 > pow2(zoom as nat) ==> w.max_x == pow2(zoom as nat))
            &&& (ceil_y + 1 > pow2(zoom as nat) ==> w.max_y == pow2(zoom as nat))
        }),
{
    vstd::arithmetic::power2::lemma2_to64_rest();
    if zoom < 62 {
        vstd::arithmetic::power2::lemma_pow2_strictly_increases(zoom as nat, 62);
    }
}

/// Every tile of a view's window lies inside the world: its column and row
/// are below `2^zoom`.
pub proof fn lemma_window_tiles_inside_world(
    zoom: u32,
    min_x: i64,
    min_y: i64,
    ceil_x: i64,
    ceil_y: i64,
    k: TileKey,
)
    requires
        zoom < 63,
        ceil_x < i64::MAX,
        ceil_y < i64::MAX,
        view_window(zoom, min_x, min_y, ceil_x, ceil_y).contains(k),
    ensures
        k.0 == zoom,
        k.1 < pow2(zoom as nat),
        k.2 < pow2(zoom as nat),
        min_x <= k.1 <= ceil_x,
        min_y <= k.2 <= ceil_y,
{
    lemma_view_window_within_world(zoom, min_x, min_y, ceil_x, ceil_y);
}

} // verus!
