//! The walkability grid of a map. Every map tile has two sub-tiles: slot 0
//! (upper-left) and slot 1 (lower-right); each one is blocked or free.
use vstd::prelude::*;
use crate::entity::{GameMap, MapTile};

verus! {

/// Warp code that marks a tile as fully blocked.
pub const BLOCKING_WARP: u32 = 248;

/// Collision code (modulo 128) whose lower-right sub-tile is blocked.
pub const LOWER_RIGHT_BLOCKED: u32 = 24;

/// Collision code (modulo 128) whose upper-left sub-tile is blocked.
pub const UPPER_LEFT_BLOCKED: u32 = 96;

/// The effective collision code of a tile: the first row and warp tiles
/// count as code 0, every other tile as its collision code modulo 128.
pub open spec fn effective_collision(tile: MapTile, first_row: bool) -> int {
    if first_row || tile.warp == BLOCKING_WARP {
        0
    } else {
        tile.collision as int % 128
    }
}

/// Whether sub-tile `pos` of `tile` is blocked: code 0 blocks both slots,
/// code 24 only the lower-right slot (1), code 96 only the upper-left slot (0).
pub open spec fn sub_tile_blocked(tile: MapTile, first_row: bool, pos: int) -> bool {
    let c = effective_collision(tile, first_row);
    if pos == 0 {
        c == 0 || c == UPPER_LEFT_BLOCKED
    } else {
        c == 0 || c == LOWER_RIGHT_BLOCKED
    }
}

/// Flat array of blocked flags, indexed by `(y * width + x) * 2 + tile_pos`.
#[derive(Debug)]
pub struct CollisionGrid {
    pub width: u32,
    pub height: u32,
    pub blocked: Vec<bool>,
}

/// Whether the collision overlay is drawn.
#[derive(Debug)]
pub struct CollisionOverlaySettings {
    pub show: bool,
}

impl CollisionOverlaySettings {
    pub fn new() -> (s: CollisionOverlaySettings)
        ensures
            !s.show,
    {
        CollisionOverlaySettings { show: false }
    }
}

impl CollisionGrid {
    /// A grid is either empty or holds two flags for each of its tiles.
    pub open spec fn wf(&self) -> bool {
        self.blocked@.len() == 0 || self.blocked@.len() == self.width * self.height * 2
    }

    pub open spec fn spec_in_range(&self, x: i32, y: i32) -> bool {
        0 <= x && 0 <= y && x < (self.width as i32) && y < (self.height as i32)
    }

    pub open spec fn flat_index(&self, x: int, y: int, tile_pos: int) -> int {
        (y * self.width + x) * 2 + tile_pos
    }

    /// What `is_blocked` answers: an empty grid blocks nothing, a position
    /// outside the grid is blocked, any other is looked up.
    pub open spec fn spec_is_blocked(&self, x: i32, y: i32, tile_pos: u8) -> bool {
        if self.blocked@.len() == 0 {
            false
        } else if !self.spec_in_range(x, y) {
            true
        } else {
            self.blocked@[self.flat_index(x as int, y as int, tile_pos as int)]
        }
    }

    /// The grid a map builds: one pair of flags per tile, in tile order.
    pub open spec fn built_from(&self, map: &GameMap) -> bool {
        &&& self.width == map.size_x
        &&& self.height == map.size_y
        &&& self.blocked@.len() == map.size_x * map.size_y * 2
        &&& forall|i: int, p: int|
            0 <= i < map.size_x * map.size_y && 0 <= p < 2 ==> #[trigger] self.blocked@[2 * i
                + p] == sub_tile_blocked(map.tiles@[i], i < map.size_x, p)
    }

    /// Whether the grid is empty or holds two flags for each of its tiles.
    pub fn well_formed(&self) -> (b: bool)
        ensures
            b == self.wf(),
    {
        let w = self.width as u128;
        let h = self.height as u128;
        assert(w * h * 2 <= 0x1_0000_0000 * 0x1_0000_0000 * 2) by (nonlinear_arith)
            requires
                w < 0x1_0000_0000,
                h < 0x1_0000_0000,
        ;
        self.blocked.len() == 0 || self.blocked.len() as u128 == w * h * 2
    }

    /// The empty grid, which blocks nothing.
    pub fn new() -> (g: CollisionGrid)
        ensures
            g.wf(),
            g.width == 0,
            g.height == 0,
            g.blocked@.len() == 0,
    {
        CollisionGrid { width: 0, height: 0, blocked: Vec::new() }
    }

    /// Builds the grid of a map: the first row and tiles with warp code 248
    /// are fully blocked; otherwise the collision code modulo 128 decides.
    pub fn build(map: &GameMap) -> (g: CollisionGrid)
        requires
            map.size_x * map.size_y * 2 <= usize::MAX,
            map.tiles@.len() >= map.size_x * map.size_y,
        ensures
            g.wf(),
            g.built_from(map),
    {
        let w = map.size_x() as usize;
        let h = map.size_y() as usize;
        assert(w * h <= usize::MAX) by (nonlinear_arith)
            requires
                w * h * 2 <= usize::MAX,
        ;
        let n = w * h;
        let mut blocked: Vec<bool> = Vec::new();
        let mut i: usize = 0;
        while i < n
            invariant
                n == map.size_x * map.size_y,
                w == map.size_x,
                n * 2 <= usize::MAX,
                i <= n,
                map.tiles@.len() >= n,
                blocked@.len() == 2 * i,
                forall|j: int, p: int|
                    0 <= j < i && 0 <= p < 2 ==> #[trigger] blocked@[2 * j + p]
                        == sub_tile_blocked(map.tiles@[j], j < map.size_x, p),
            decreases n - i,
        {
            let tile = &map.tiles[i];
            let collision: u32 = if i < w || tile.warp == BLOCKING_WARP {
                0
            } else {
                tile.collision % 128
            };
            let upper_left = collision == 0 || collision == UPPER_LEFT_BLOCKED;
            let lower_right = collision == 0 || collision == LOWER_RIGHT_BLOCKED;
            blocked.push(upper_left);
            blocked.push(lower_right);
            i = i + 1;
        }
        let g = CollisionGrid { width: map.size_x(), height: map.size_y(), blocked };
        g
    }

    /// Whether sub-tile `tile_pos` of tile `(x, y)` is blocked. An empty grid
    /// blocks nothing; every position outside the grid is blocked.
    pub fn is_blocked(&self, x: i32, y: i32, tile_pos: u8) -> (b: bool)
        requires
            self.wf(),
            self.blocked@.len() > 0 && self.spec_in_range(x, y) ==> self.flat_index(
                x as int,
                y as int,
                tile_pos as int,
            ) < self.blocked@.len(),
        ensures
            b == self.spec_is_blocked(x, y, tile_pos),
    {
        if self.blocked.len() == 0 {
            return false;
        }
        if x < 0 || y < 0 || x >= self.width as i32 || y >= self.height as i32 {
            return true;
        }
        let w = self.width;
        let h = self.height;
        assert(0 <= x && x < (w as i32) ==> x < w) by (bit_vector);
        assert(0 <= y && y < (h as i32) ==> y < h) by (bit_vector);
        let xu = x as usize;
        let yu = y as usize;
        let wu = w as usize;
        assert(yu * wu + xu < wu * h) by (nonlinear_arith)
            requires
                xu < wu,
                yu < h,
        ;
        assert(wu * h * 2 == self.blocked@.len());
        let base = (yu * wu + xu) * 2;
        self.blocked[base + tile_pos as usize]
    }
}

/// The lookup of a built grid is the collision rule of the tile looked up:
/// the first row is fully blocked, warp tiles are fully blocked, and
/// collision codes 0, 24 and 96 block both, the lower-right and the
/// upper-left sub-tile.
pub proof fn lemma_built_grid_lookup(g: CollisionGrid, map: GameMap, x: i32, y: i32, p: u8)
    requires
        g.built_from(&map),
        g.blocked@.len() > 0,
        g.spec_in_range(x, y),
        p < 2,
    ensures
        g.spec_is_blocked(x, y, p) == sub_tile_blocked(
            map.tiles@[y * map.size_x + x],
            y == 0,
            p as int,
        ),
        y == 0 ==> g.spec_is_blocked(x, y, p),
        map.tiles@[y * map.size_x + x].warp == BLOCKING_WARP ==> g.spec_is_blocked(x, y, p),
{
    let w = map.size_x;
    let h = map.size_y;
    assert(0 <= x && x < (w as i32) ==> x < w) by (bit_vector);
    assert(0 <= y && y < (h as i32) ==> y < h) by (bit_vector);
    let i = y * w + x;
    assert(0 <= i < w * h && (i < w <==> y == 0)) by (nonlinear_arith)
        requires
            0 <= x < w,
            0 <= y < h,
            i == y * w + x,
    ;
    assert(g.blocked@[2 * i + p] == sub_tile_blocked(map.tiles@[i], i < w, p as int));
}

/// Outside its bounds a non-empty grid is blocked everywhere, and the empty
/// grid blocks nothing.
pub proof fn lemma_outside_blocked(g: CollisionGrid, x: i32, y: i32, p: u8)
    ensures
        g.blocked@.len() > 0 && (x < 0 || y < 0 || x >= (g.width as i32) || y >= (
        g.height as i32)) ==> g.spec_is_blocked(x, y, p),
        g.blocked@.len() == 0 ==> !g.spec_is_blocked(x, y, p),
{
}

/// Inside a non-empty grid, both sub-tiles of a tile are stored: looking
/// up slot 0 or 1 stays within the flags.
pub proof fn lemma_index_in_bounds(g: CollisionGrid, x: i32, y: i32, p: u8)
    requires
        g.wf(),
        g.blocked@.len() > 0,
        g.spec_in_range(x, y),
        p < 2,
    ensures
        g.flat_index(x as int, y as int, p as int) < g.blocked@.len(),
{
    let w = g.width;
    let h = g.height;
    assert(0 <= x && x < (w as i32) ==> x < w) by (bit_vector);
    assert(0 <= y && y < (h as i32) ==> y < h) by (bit_vector);
    assert((y * w + x) * 2 + p < w * h * 2) by (nonlinear_arith)
        requires
            0 <= x < w,
            0 <= y < h,
            p < 2,
    ;
}

/// A marker of a blocked sub-tile in the collision overlay: its center in
/// world pixels (y pointing up) and the sub-tile slot.
#[derive(Clone, Copy, Debug, PartialEq, Eq, Structural)]
pub struct CollisionMarker {
    pub x: i64,
    pub y: i64,
    pub tile_pos: u8,
}

/// The markers of tile `(x, y)`: one at the center of the upper-left
/// sub-tile when it is blocked, then one at the center of the lower-right
/// sub-tile when that one is.
pub open spec fn tile_markers(g: CollisionGrid, x: int, y: int) -> Seq<CollisionMarker> {
    let upper = if g.spec_is_blocked(x as i32, y as i32, 0) {
        seq![CollisionMarker { x: (x * 48 + 18) as i64, y: (-(y * 24) - 12) as i64, tile_pos: 0 }]
    } else {
        Seq::empty()
    };
    let lower = if g.spec_is_blocked(x as i32, y as i32, 1) {
        seq![CollisionMarker { x: (x * 48 + 42) as i64, y: (-(y * 24) - 24) as i64, tile_pos: 1 }]
    } else {
        Seq::empty()
    };
    upper + lower
}

/// The markers of the first `n` tiles of row `y`.
pub open spec fn row_markers(g: CollisionGrid, y: int, n: nat) -> Seq<CollisionMarker>
    decreases n,
{
    if n == 0 {
        Seq::empty()
    } else {
        row_markers(g, y, (n - 1) as nat) + tile_markers(g, n - 1, y)
    }
}

/// The markers of the first `n` rows, each row `w` tiles wide.
pub open spec fn grid_markers(g: CollisionGrid, w: nat, n: nat) -> Seq<CollisionMarker>
    decreases n,
{
    if n == 0 {
        Seq::empty()
    } else {
        grid_markers(g, w, (n - 1) as nat) + row_markers(g, n - 1, w)
    }
}

/// A count of grid rows or columns as the overlay walks them: the size
/// taken as a signed number, none when that is negative.
pub open spec fn walk_count(size: u32) -> nat {
    if (size as i32) < 0 {
        0
    } else {
        (size as i32) as nat
    }
}

/// The collision overlay: nothing when it is hidden or the grid is empty;
/// otherwise, row by row and tile by tile, a marker for every blocked
/// sub-tile.
pub fn collision_markers(settings: &CollisionOverlaySettings, grid: &CollisionGrid) -> (v: Vec<CollisionMarker>)
    requires
        grid.wf(),
    ensures
        !settings.show || grid.blocked@.len() == 0 ==> v@.len() == 0,
        settings.show && grid.blocked@.len() > 0 ==> v@ == grid_markers(
            *grid,
            walk_count(grid.width),
            walk_count(grid.height),
        ),
{
    let mut v: Vec<CollisionMarker> = Vec::new();
    if !settings.show || grid.blocked.len() == 0 {
        return v;
    }
    let h = grid.height as i32;
    let w = grid.width as i32;
    let mut y: i32 = 0;
    while y < h
        invariant
            grid.wf(),
            grid.blocked@.len() > 0,
            h == grid.height as i32,
            w == grid.width as i32,
            0 <= y,
            y <= h || (h < 0 && y == 0),
            v@ == grid_markers(*grid, walk_count(grid.width), y as nat),
        decreases h - y,
    {
        let ghost at_row = v@;
        let mut x: i32 = 0;
        while x < w
            invariant
                grid.wf(),
                grid.blocked@.len() > 0,
                h == grid.height as i32,
                w == grid.width as i32,
                0 <= y < h,
                0 <= x,
                x <= w || (w < 0 && x == 0),
                v@ == at_row + row_markers(*grid, y as int, x as nat),
            decreases w - x,
        {
            proof {
                let gw = grid.width;
                let gh = grid.height;
                assert(0 <= x && x < w ==> x < gw) by (bit_vector)
                    requires
                        w == gw as i32,
                ;
                assert(0 <= y && y < h ==> y < gh) by (bit_vector)
                    requires
                        h == gh as i32,
                ;
                assert(grid.spec_in_range(x, y));
                lemma_index_in_bounds(*grid, x, y, 0);
                lemma_index_in_bounds(*grid, x, y, 1);
            }
            let b0 = grid.is_blocked(x, y, 0);
            let b1 = grid.is_blocked(x, y, 1);
            let bx = x as i64 * 48;
            let by = -(y as i64 * 24);
            if b0 {
                v.push(CollisionMarker { x: bx + 18, y: by - 12, tile_pos: 0 });
            }
            if b1 {
                v.push(CollisionMarker { x: bx + 42, y: by - 24, tile_pos: 1 });
            }
            assert(v@ =~= at_row + row_markers(*grid, y as int, (x + 1) as nat));
            x = x + 1;
        }
        assert(w >= 0 ==> x == w);
        assert(v@ =~= grid_markers(*grid, walk_count(grid.width), (y + 1) as nat));
        y = y + 1;
    }
    v
}

} // verus!
