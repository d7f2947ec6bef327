//! The player character: facing and action, grid movement with collision,
//! animation stepping, and which sprites of its current animation frame to
//! load and show.
use vstd::prelude::*;
use crate::asset_loader::SpriteKind;
use crate::collision::{CollisionGrid, lemma_index_in_bounds};
use crate::entity::{Entry, ListAsset, Rmd};
use crate::map_spawn::{
    add_entry_rle_files,
    cache_sizes_ok,
    entry_sprite,
    entry_sprites_cached,
    entry_sprites_ready,
    entry_uses_file,
    is_shadow_layer,
};
use crate::resources::{CachedSprite, SpriteCache};
use crate::systems::{ClippedSource, clip_spec, clip_sprite_src, lemma_clip_keeps_anchor};

verus! {

/// The eight facing directions, numbered like a numeric keypad.
#[derive(Clone, Copy, Debug, PartialEq, Eq, Structural)]
pub enum Direction {
    DownLeft,
    Down,
    DownRight,
    Left,
    Right,
    UpLeft,
    Up,
    UpRight,
}

impl Direction {
    pub open spec fn number(self) -> int {
        match self {
            Direction::DownLeft => 1,
            Direction::Down => 2,
            Direction::DownRight => 3,
            Direction::Left => 4,
            Direction::Right => 6,
            Direction::UpLeft => 7,
            Direction::Up => 8,
            Direction::UpRight => 9,
        }
    }

    /// The facing the player starts with.
    pub fn default() -> (d: Direction)
        ensures
            d == Direction::Right,
    {
        Direction::Right
    }

    /// The keypad number of the direction, which is also its offset among a
    /// character's animations.
    pub fn as_usize(self) -> (n: usize)
        ensures
            n == self.number(),
    {
        match self {
            Direction::DownLeft => 1,
            Direction::Down => 2,
            Direction::DownRight => 3,
            Direction::Left => 4,
            Direction::Right => 6,
            Direction::UpLeft => 7,
            Direction::Up => 8,
            Direction::UpRight => 9,
        }
    }

    pub open spec fn spec_name(self) -> Seq<char> {
        match self {
            Direction::DownLeft => "DownLeft"@,
            Direction::Down => "Down"@,
            Direction::DownRight => "DownRight"@,
            Direction::Left => "Left"@,
            Direction::Right => "Right"@,
            Direction::UpLeft => "UpLeft"@,
            Direction::Up => "Up"@,
            Direction::UpRight => "UpRight"@,
        }
    }

    /// The name of the direction.
    pub fn name(self) -> (s: &'static str)
        ensures
            s@ == self.spec_name(),
    {
        match self {
            Direction::DownLeft => "DownLeft",
            Direction::Down => "Down",
            Direction::DownRight => "DownRight",
            Direction::Left => "Left",
            Direction::Right => "Right",
            Direction::UpLeft => "UpLeft",
            Direction::Up => "Up",
            Direction::UpRight => "UpRight",
        }
    }
}

/// What the character does; each action's animations start at its base.
#[derive(Clone, Copy, Debug, PartialEq, Eq, Structural)]
pub enum CharAction {
    Walking,
    Run,
    Idle,
}

impl CharAction {
    pub open spec fn base(self) -> int {
        match self {
            CharAction::Walking => 0,
            CharAction::Run => 10,
            CharAction::Idle => 60,
        }
    }

    /// The action the player starts with.
    pub fn default() -> (a: CharAction)
        ensures
            a == CharAction::Idle,
    {
        CharAction::Idle
    }

    /// The index of the action's first animation.
    pub fn anim_base(self) -> (n: usize)
        ensures
            n == self.base(),
    {
        match self {
            CharAction::Walking => 0,
            CharAction::Run => 10,
            CharAction::Idle => 60,
        }
    }

    pub open spec fn spec_name(self) -> Seq<char> {
        match self {
            CharAction::Walking => "Walking"@,
            CharAction::Run => "Run"@,
            CharAction::Idle => "Idle"@,
        }
    }

    /// The name of the action.
    pub fn name(self) -> (s: &'static str)
        ensures
            s@ == self.spec_name(),
    {
        match self {
            CharAction::Walking => "Walking",
            CharAction::Run => "Run",
            CharAction::Idle => "Idle",
        }
    }
}

/// The player: character type, grid position and sub-tile slot, facing,
/// action and current animation frame.
#[derive(Clone, Copy, Debug, PartialEq, Eq, Structural)]
pub struct Player {
    /// Character type index (0 = Philar, 1 = Azlar, ... 9 = Aurello).
    pub char_enum: u32,
    pub tile_x: i32,
    pub tile_y: i32,
    /// Sub-tile slot (0 = upper-left, 1 = lower-right).
    pub tile_pos: u8,
    pub direction: Direction,
    pub action: CharAction,
    /// Current frame index within the animation.
    pub frame_idx: usize,
}

impl Player {
    /// The player at the start: Philar on tile (5, 5), slot 0, facing right,
    /// idle, first frame.
    pub fn default() -> (p: Player)
        ensures
            p.char_enum == 0,
            p.tile_x == 5,
            p.tile_y == 5,
            p.tile_pos == 0,
            p.direction == Direction::Right,
            p.action == CharAction::Idle,
            p.frame_idx == 0,
    {
        Player {
            char_enum: 0,
            tile_x: 5,
            tile_y: 5,
            tile_pos: 0,
            direction: Direction::default(),
            action: CharAction::default(),
            frame_idx: 0,
        }
    }

    /// The index of the player's current animation: action base plus
    /// direction number.
    pub open spec fn anim_key(self) -> int {
        self.action.base() + self.direction.number()
    }
}

/// The world position (pixels, y pointing up) of a grid position and
/// sub-tile slot: the tile corner moved by (36, 18) for slot 1 and by
/// (12, 6) otherwise.
pub fn tile_to_world(tile_x: i32, tile_y: i32, tile_pos: u8) -> (w: (i64, i64))
    ensures
        w.0 == tile_x * 48 + (if tile_pos == 1 {
            36int
        } else {
            12int
        }),
        w.1 == -(tile_y * 24 + (if tile_pos == 1 {
            18int
        } else {
            6int
        })),
{
    let (ox, oy): (i64, i64) = if tile_pos == 1 {
        (36, 18)
    } else {
        (12, 6)
    };
    (tile_x as i64 * 48 + ox, -(tile_y as i64 * 24 + oy))
}

pub open spec fn sign(v: int) -> int {
    if v > 0 {
        1
    } else if v < 0 {
        -1
    } else {
        0
    }
}

/// The facing of a move by `(dx, dy)` (y grows downward): decided by the
/// signs; no move, or any sign pair not listed, faces down-left.
pub open spec fn direction_from_delta_spec(dx: int, dy: int) -> Direction {
    let (sx, sy) = (sign(dx), sign(dy));
    if sx == 1 && sy == 0 {
        Direction::Right
    } else if sx == -1 && sy == 0 {
        Direction::Left
    } else if sx == 0 && sy == -1 {
        Direction::Up
    } else if sx == 0 && sy == 1 {
        Direction::Down
    } else if sx == 1 && sy == -1 {
        Direction::UpRight
    } else if sx == -1 && sy == -1 {
        Direction::UpLeft
    } else if sx == 1 && sy == 1 {
        Direction::DownRight
    } else {
        Direction::DownLeft
    }
}

/// The facing of a move by `(dx, dy)`.
pub fn direction_from_delta(dx: i32, dy: i32) -> (d: Direction)
    ensures
        d == direction_from_delta_spec(dx as int, dy as int),
{
    let sx: i32 = if dx > 0 {
        1
    } else if dx < 0 {
        -1
    } else {
        0
    };
    let sy: i32 = if dy > 0 {
        1
    } else if dy < 0 {
        -1
    } else {
        0
    };
    if sx == 1 && sy == 0 {
        Direction::Right
    } else if sx == -1 && sy == 0 {
        Direction::Left
    } else if sx == 0 && sy == -1 {
        Direction::Up
    } else if sx == 0 && sy == 1 {
        Direction::Down
    } else if sx == 1 && sy == -1 {
        Direction::UpRight
    } else if sx == -1 && sy == -1 {
        Direction::UpLeft
    } else if sx == 1 && sy == 1 {
        Direction::DownRight
    } else {
        Direction::DownLeft
    }
}

/// The area the player may walk: one tile of margin on each edge of the
/// map, and at least column and row 1.
#[derive(Clone, Copy, Debug, PartialEq, Eq, Structural)]
pub struct MoveBounds {
    pub min_x: i32,
    pub max_x: i32,
    pub min_y: i32,
    pub max_y: i32,
}

/// The walkable area of a map of `size` tiles (a map of 50 by 50 tiles
/// while none is loaded): from 1 to `max(width - 2, 1)` across and from 1
/// to `max(height - 2, 1)` down.
pub fn movement_bounds(size: Option<(i32, i32)>) -> (b: MoveBounds)
    requires
        size matches Some((w, h)) ==> w >= i32::MIN + 2 && h >= i32::MIN + 2,
    ensures
        ({
            let (w, h) = match size {
                Some((w, h)) => (w as int, h as int),
                None => (50int, 50int),
            };
            &&& b.min_x == 1
            &&& b.min_y == 1
            &&& b.max_x == (if w - 2 > 1 {
                w - 2
            } else {
                1
            })
            &&& b.max_y == (if h - 2 > 1 {
                h - 2
            } else {
                1
            })
        }),
{
    let (w, h) = match size {
        Some((w, h)) => (w, h),
        None => (50, 50),
    };
    let max_x = if w - 2 > 1 {
        w - 2
    } else {
        1
    };
    let max_y = if h - 2 > 1 {
        h - 2
    } else {
        1
    };
    MoveBounds { min_x: 1, max_x, min_y: 1, max_y }
}

/// The movement keys held this frame (up is W or K, down S or J, left A or
/// H, right D or L).
#[derive(Clone, Copy, Debug, PartialEq, Eq, Structural)]
pub struct MoveInput {
    pub up: bool,
    pub down: bool,
    pub left: bool,
    pub right: bool,
}

/// What a frame of movement did: whether the player moved, whether the move
/// cooldown starts again, and whether the character sprites must be
/// re-spawned.
#[derive(Clone, Copy, Debug, PartialEq, Eq, Structural)]
pub struct MoveOutcome {
    pub moved: bool,
    pub restart_cooldown: bool,
    pub dirty: bool,
}

pub open spec fn input_dx(input: MoveInput) -> int {
    (if input.left {
        -1int
    } else {
        0
    }) + (if input.right {
        1int
    } else {
        0
    })
}

pub open spec fn input_dy(input: MoveInput) -> int {
    (if input.up {
        -1int
    } else {
        0
    }) + (if input.down {
        1int
    } else {
        0
    })
}

/// One frame of player movement. With keys held the player faces the
/// key direction and walks; when the move cooldown has run out, it steps one
/// tile (clamped to the walkable area) unless the target sub-tile is
/// blocked, and the cooldown starts again whenever the clamped target is a
/// different tile. Without keys the player idles. A change of action
/// restarts the animation; a change of facing or action marks the
/// character sprites for re-spawning.
pub fn player_movement(
    player: &mut Player,
    input: MoveInput,
    bounds: MoveBounds,
    cooldown_elapsed: bool,
    grid: &CollisionGrid,
) -> (out: MoveOutcome)
    requires
        grid.wf(),
        old(player).tile_pos < 2,
        bounds.min_x <= bounds.max_x,
        bounds.min_y <= bounds.max_y,
        i32::MIN < old(player).tile_x < i32::MAX,
        i32::MIN < old(player).tile_y < i32::MAX,
    ensures
        ({
            let dx = input_dx(input);
            let dy = input_dy(input);
            let p0 = *old(player);
            let p1 = *final(player);
            let nx = crate::systems::clamp_spec(p0.tile_x + dx, bounds.min_x as int, bounds.max_x as int);
            let ny = crate::systems::clamp_spec(p0.tile_y + dy, bounds.min_y as int, bounds.max_y as int);
            let keys = dx != 0 || dy != 0;
            let target_differs = nx != p0.tile_x || ny != p0.tile_y;
            let step = keys && cooldown_elapsed && target_differs;
            let free = !grid.spec_is_blocked(nx as i32, ny as i32, p0.tile_pos);
            &&& p1.char_enum == p0.char_enum
            &&& p1.tile_pos == p0.tile_pos
            &&& keys ==> p1.direction == direction_from_delta_spec(dx, dy)
            &&& !keys ==> p1.direction == p0.direction
            &&& out.moved == (step && free)
            &&& out.moved ==> p1.tile_x == nx && p1.tile_y == ny
            &&& !out.moved ==> p1.tile_x == p0.tile_x && p1.tile_y == p0.tile_y
            &&& out.restart_cooldown == step
            &&& p1.action == (if keys {
                CharAction::Walking
            } else {
                CharAction::Idle
            })
            &&& p1.frame_idx == (if p1.action != p0.action {
                0
            } else {
                p0.frame_idx
            })
            &&& out.dirty == (p1.direction != p0.direction || p1.action != p0.action)
        }),
        bounds.min_x <= old(player).tile_x <= bounds.max_x && bounds.min_y <= old(player).tile_y
            <= bounds.max_y ==> bounds.min_x <= final(player).tile_x <= bounds.max_x && bounds.min_y
            <= final(player).tile_y <= bounds.max_y,
        final(player).tile_x != old(player).tile_x || final(player).tile_y != old(player).tile_y
            ==> !grid.spec_is_blocked(final(player).tile_x, final(player).tile_y, old(player).tile_pos),
{
    let mut dx: i32 = 0;
    let mut dy: i32 = 0;
    if input.up {
        dy -= 1;
    }
    if input.down {
        dy += 1;
    }
    if input.left {
        dx -= 1;
    }
    if input.right {
        dx += 1;
    }
    let mut out = MoveOutcome { moved: false, restart_cooldown: false, dirty: false };
    if dx != 0 || dy != 0 {
        let new_dir = direction_from_delta(dx, dy);
        if new_dir != player.direction {
            player.direction = new_dir;
            out.dirty = true;
        }
        if cooldown_elapsed {
            let tx = player.tile_x + dx;
            let ty = player.tile_y + dy;
            let new_x = if tx < bounds.min_x {
                bounds.min_x
            } else if tx > bounds.max_x {
                bounds.max_x
            } else {
                tx
            };
            let new_y = if ty < bounds.min_y {
                bounds.min_y
            } else if ty > bounds.max_y {
                bounds.max_y
            } else {
                ty
            };
            if new_x != player.tile_x || new_y != player.tile_y {
                proof {
                    if grid.blocked@.len() > 0 && grid.spec_in_range(new_x, new_y) {
                        lemma_index_in_bounds(*grid, new_x, new_y, player.tile_pos);
                    }
                }
                if !grid.is_blocked(new_x, new_y, player.tile_pos) {
                    player.tile_x = new_x;
                    player.tile_y = new_y;
                    out.moved = true;
                }
                out.restart_cooldown = true;
            }
        }
        if player.action != CharAction::Walking {
            player.action = CharAction::Walking;
            player.frame_idx = 0;
            out.dirty = true;
        }
    } else if player.action != CharAction::Idle {
        player.action = CharAction::Idle;
        player.frame_idx = 0;
        out.dirty = true;
    }
    out
}

/// Advances the player's animation by one frame once its frame timer has
/// run out: the frame counter wraps around the frame count of the current
/// animation (action base plus direction number) of the character's data
/// file; nothing happens when that animation is missing or has no frames.
/// Gives whether the frame changed, which marks the character sprites for
/// re-spawning.
pub fn advance_char_anim(player: &mut Player, rmd: &Rmd) -> (dirty: bool)
    requires
        old(player).frame_idx < usize::MAX,
    ensures
        ({
            let key = old(player).anim_key();
            let p0 = *old(player);
            let p1 = *final(player);
            let count = if 0 <= key < rmd.animations@.len() {
                rmd.animations@[key].frames@.len() as int
            } else {
                0
            };
            let next = if count > 0 {
                (p0.frame_idx + 1) % count
            } else {
                p0.frame_idx as int
            };
            &&& p1.frame_idx == next
            &&& count > 0 ==> p1.frame_idx < count
            &&& dirty == (next != p0.frame_idx)
            &&& p1.char_enum == p0.char_enum
            &&& p1.tile_x == p0.tile_x
            &&& p1.tile_y == p0.tile_y
            &&& p1.tile_pos == p0.tile_pos
            &&& p1.direction == p0.direction
            &&& p1.action == p0.action
        }),
{
    let key = player.action.anim_base() + player.direction.as_usize();
    if key >= rmd.animations.len() {
        return false;
    }
    let count = rmd.animations[key].frames.len();
    if count == 0 {
        return false;
    }
    let new_frame = (player.frame_idx + 1) % count;
    if new_frame != player.frame_idx {
        player.frame_idx = new_frame;
        true
    } else {
        false
    }
}

// ── Character sprites ───────────────────────────────────────────────────────

/// The data-file entry of frame value `f`: `max(f, 0)`.
pub open spec fn frame_entry(f: i32) -> int {
    if f > 0 {
        f as int
    } else {
        0
    }
}

/// The entry index of the player's current frame, when the current
/// animation and frame exist.
pub open spec fn current_frame_entry(player: Player, rmd: &Rmd) -> Option<int> {
    let key = player.anim_key();
    if 0 <= key < rmd.animations@.len() && player.frame_idx < rmd.animations@[key].frames@.len() {
        Some(frame_entry(rmd.animations@[key].frames@[player.frame_idx as int]))
    } else {
        None
    }
}

/// Whether everything the player's current frame draws is cached: the
/// character's data and list files are loaded, the current animation,
/// frame and entry exist, and every sprite its images refer to through the
/// list is cached.
pub open spec fn current_frame_ready<H>(
    player: Player,
    rmd: Option<&Rmd>,
    list: Option<&ListAsset>,
    cache: Map<(SpriteKind, Entry), CachedSprite<H>>,
) -> bool {
    match (rmd, list) {
        (Some(r), Some(l)) => match current_frame_entry(player, r) {
            Some(ei) => ei < r.entries@.len() && entry_sprites_cached(
                r,
                l,
                ei,
                SpriteKind::Character,
                cache,
            ),
            None => false,
        },
        _ => false,
    }
}

fn current_frame_entry_exec(player: &Player, rmd: &Rmd) -> (r: Option<usize>)
    ensures
        match r {
            Some(e) => current_frame_entry(*player, rmd) == Some(e as int),
            None => current_frame_entry(*player, rmd) is None,
        },
{
    let key = player.action.anim_base() + player.direction.as_usize();
    if key >= rmd.animations.len() {
        return None;
    }
    let frames = rmd.animations[key].frames();
    if player.frame_idx >= frames.len() {
        return None;
    }
    let f = frames[player.frame_idx];
    if f > 0 {
        Some(f as usize)
    } else {
        Some(0)
    }
}

/// Whether everything the player's current animation frame draws is cached.
pub fn current_frame_sprites_ready<H>(
    player: &Player,
    rmd: Option<&Rmd>,
    list: Option<&ListAsset>,
    cache: &SpriteCache<H>,
) -> (b: bool)
    ensures
        b == current_frame_ready(*player, rmd, list, cache@),
{
    let r = match rmd {
        Some(r) => r,
        None => {
            return false;
        },
    };
    let l = match list {
        Some(l) => l,
        None => {
            return false;
        },
    };
    let ei = match current_frame_entry_exec(player, r) {
        Some(e) => e,
        None => {
            return false;
        },
    };
    if ei >= r.entries.len() {
        return false;
    }
    entry_sprites_ready(r, ei, l, SpriteKind::Character, cache)
}

/// Whether some frame of the player's current animation draws a sprite of
/// sprite file `n`.
pub open spec fn current_anim_uses_file(player: Player, rmd: &Rmd, list: &ListAsset, n: u32) -> bool {
    let key = player.anim_key();
    0 <= key < rmd.animations@.len() && exists|k: int|
        0 <= k < rmd.animations@[key].frames@.len() && entry_uses_file(
            rmd,
            list,
            frame_entry(#[trigger] rmd.animations@[key].frames@[k]),
            n,
        )
}

/// The distinct sprite files that the frames of the player's current
/// animation draw.
pub fn current_anim_rle_files(player: &Player, rmd: &Rmd, list: &ListAsset) -> (v: Vec<u32>)
    ensures
        v@.no_duplicates(),
        forall|y: u32| #[trigger] v@.contains(y) <==> current_anim_uses_file(*player, rmd, list, y),
{
    let mut v: Vec<u32> = Vec::new();
    let key = player.action.anim_base() + player.direction.as_usize();
    if key >= rmd.animations.len() {
        return v;
    }
    let frames = rmd.animations[key].frames();
    let mut k: usize = 0;
    while k < frames.len()
        invariant
            key == player.anim_key(),
            0 <= key < rmd.animations@.len(),
            frames@ == rmd.animations@[key as int].frames@,
            k <= frames@.len(),
            v@.no_duplicates(),
            forall|y: u32| #[trigger]
                v@.contains(y) <==> exists|k2: int|
                    0 <= k2 < k && entry_uses_file(rmd, list, frame_entry(#[trigger] frames@[k2]), y),
        decreases frames@.len() - k,
    {
        let f = frames[k];
        let ei: usize = if f > 0 {
            f as usize
        } else {
            0
        };
        let ghost before = v@;
        add_entry_rle_files(rmd, ei, list, &mut v);
        proof {
            assert forall|y: u32| #[trigger]
                v@.contains(y) <==> exists|k2: int|
                    0 <= k2 < k + 1 && entry_uses_file(rmd, list, frame_entry(#[trigger] frames@[k2]), y) by {
                if exists|k2: int|
                    0 <= k2 < k + 1 && entry_uses_file(rmd, list, frame_entry(#[trigger] frames@[k2]), y) {
                    let k2 = choose|k2: int|
                        0 <= k2 < k + 1 && entry_uses_file(
                            rmd,
                            list,
                            frame_entry(#[trigger] frames@[k2]),
                            y,
                        );
                    if k2 < k {
                        assert(before.contains(y));
                    }
                }
                if v@.contains(y) && !before.contains(y) {
                    assert(frame_entry(frames@[k as int]) == ei);
                }
            }
        }
        k = k + 1;
    }
    v
}

/// One sprite of a character frame, placed relative to the player (pixels,
/// y pointing down), with its semantic layer, draw type and draw order.
#[derive(Clone, Copy, Debug, PartialEq, Eq, Structural)]
pub struct CharSubSprite {
    pub entry: Entry,
    pub clip: ClippedSource,
    pub dest_x: i64,
    pub dest_y: i64,
    /// Semantic layer: 0 body, 1 skill effect, 2 shadow, 3 clothes, 4 hair,
    /// 5 and 6 weapon effects.
    pub layer: i32,
    /// Tint and blend bit field.
    pub draw_type: i32,
    /// Fine draw order within a layer.
    pub render_z: i32,
}

/// The sub-sprite that id `d` of image `g` of entry `ei` shows: the image
/// has a source area, the list has the item, its sprite is cached and its
/// clipped source is not empty.
pub open spec fn char_sub_sprite_spec<H>(
    rmd: &Rmd,
    list: &ListAsset,
    cache: Map<(SpriteKind, Entry), CachedSprite<H>>,
    ei: int,
    g: int,
    d: int,
) -> Option<CharSubSprite> {
    match entry_sprite(rmd, list, ei, g, d) {
        Some(e) => {
            let img = rmd.entries@[ei].images@[g];
            if img.source_x2 > img.source_x1 && img.source_y2 > img.source_y1 && cache.contains_key(
                (SpriteKind::Character, e),
            ) {
                let c = cache[(SpriteKind::Character, e)];
                match clip_spec(
                    img.source_x1,
                    img.source_y1,
                    img.source_x2,
                    img.source_y2,
                    c.x_off,
                    c.y_off,
                    c.width,
                    c.height,
                ) {
                    Some(cl) => Some(
                        CharSubSprite {
                            entry: e,
                            clip: cl,
                            dest_x: (img.dest_x + cl.x_diff) as i64,
                            dest_y: (img.dest_y + cl.y_diff) as i64,
                            layer: img.empty_2,
                            draw_type: img.draw_type,
                            render_z: img.render_z,
                        },
                    ),
                    None => None,
                }
            } else {
                None
            }
        },
        None => None,
    }
}

/// A character sub-sprite is drawn where its unclipped sprite would be:
/// its destination, less the clipped source corner, is the image's
/// destination less the source corner moved by the cached sprite's offset.
/// So the destination is the image's destination plus the clip's
/// corrections, and rows or columns cut off at the top or left move it
/// down or right by as many pixels.
pub proof fn lemma_char_sub_sprite_anchored<H>(
    rmd: &Rmd,
    list: &ListAsset,
    cache: Map<(SpriteKind, Entry), CachedSprite<H>>,
    ei: int,
    g: int,
    d: int,
)
    requires
        cache_sizes_ok(cache),
    ensures
        char_sub_sprite_spec(rmd, list, cache, ei, g, d) matches Some(s) ==> {
            let img = rmd.entries@[ei].images@[g];
            let c = cache[(SpriteKind::Character, s.entry)];
            &&& s.dest_x - s.clip.src.min_x == img.dest_x - (img.source_x1 - c.x_off)
            &&& s.dest_y - s.clip.src.min_y == img.dest_y - (img.source_y1 - c.y_off)
            &&& s.dest_x == img.dest_x + s.clip.x_diff
            &&& s.dest_y == img.dest_y + s.clip.y_diff
            &&& s.clip.x_diff >= 0 && s.clip.y_diff >= 0
        },
{
    match entry_sprite(rmd, list, ei, g, d) {
        Some(e) => {
            let img = rmd.entries@[ei].images@[g];
            if cache.contains_key((SpriteKind::Character, e)) {
                let c = cache[(SpriteKind::Character, e)];
                lemma_clip_keeps_anchor(
                    img.source_x1,
                    img.source_y1,
                    img.source_x2,
                    img.source_y2,
                    c.x_off,
                    c.y_off,
                    c.width,
                    c.height,
                );
            }
        },
        None => {},
    }
}

pub open spec fn char_sub_sprites_image<H>(
    rmd: &Rmd,
    list: &ListAsset,
    cache: Map<(SpriteKind, Entry), CachedSprite<H>>,
    ei: int,
    g: int,
    n: nat,
) -> Seq<CharSubSprite>
    decreases n,
{
    if n == 0 {
        Seq::empty()
    } else {
        char_sub_sprites_image(rmd, list, cache, ei, g, (n - 1) as nat) + match char_sub_sprite_spec(
            rmd,
            list,
            cache,
            ei,
            g,
            n - 1,
        ) {
            Some(s) => seq![s],
            None => Seq::empty(),
        }
    }
}

pub open spec fn char_sub_sprites_entry<H>(
    rmd: &Rmd,
    list: &ListAsset,
    cache: Map<(SpriteKind, Entry), CachedSprite<H>>,
    ei: int,
    n: nat,
) -> Seq<CharSubSprite>
    decreases n,
{
    if n == 0 {
        Seq::empty()
    } else {
        char_sub_sprites_entry(rmd, list, cache, ei, (n - 1) as nat) + char_sub_sprites_image(
            rmd,
            list,
            cache,
            ei,
            n - 1,
            rmd.entries@[ei].images@[n - 1].image_id@.len(),
        )
    }
}

/// The sub-sprites of the player's current frame, image by image; none when
/// the data or list file, the animation, the frame or the entry is missing.
pub open spec fn current_frame_sub_sprites<H>(
    player: Player,
    rmd: Option<&Rmd>,
    list: Option<&ListAsset>,
    cache: Map<(SpriteKind, Entry), CachedSprite<H>>,
) -> Seq<CharSubSprite> {
    match (rmd, list) {
        (Some(r), Some(l)) => match current_frame_entry(player, r) {
            Some(ei) => if ei < r.entries@.len() {
                char_sub_sprites_entry(r, l, cache, ei, r.entries@[ei].images@.len())
            } else {
                Seq::empty()
            },
            None => Seq::empty(),
        },
        _ => Seq::empty(),
    }
}

fn char_sub_sprite_at<H>(
    rmd: &Rmd,
    list: &ListAsset,
    cache: &SpriteCache<H>,
    ei: usize,
    g: usize,
    d: usize,
) -> (r: Option<CharSubSprite>)
    requires
        cache_sizes_ok(cache@),
    ensures
        r == char_sub_sprite_spec(rmd, list, cache@, ei as int, g as int, d as int),
{
    let entry = match rmd.get_entry(ei) {
        Some(e) => e,
        None => {
            return None;
        },
    };
    if g >= entry.images.len() {
        return None;
    }
    let img = &entry.images[g];
    if d >= img.image_id.len() {
        return None;
    }
    let item = match list.get_item(img.image_id[d] as usize) {
        Some(i) => i,
        None => {
            return None;
        },
    };
    if img.source_x2 <= img.source_x1 || img.source_y2 <= img.source_y1 {
        return None;
    }
    let cached = match cache.get(SpriteKind::Character, &item.entry) {
        Some(c) => c,
        None => {
            return None;
        },
    };
    match clip_sprite_src(
        img.source_x1,
        img.source_y1,
        img.source_x2,
        img.source_y2,
        cached.x_off,
        cached.y_off,
        cached.width,
        cached.height,
    ) {
        Some(cl) => {
            assert(-0x1_0000_0000 <= cl.x_diff <= 0x1_0000_0000);
            assert(-0x1_0000_0000 <= cl.y_diff <= 0x1_0000_0000);
            Some(
                CharSubSprite {
                    entry: item.entry,
                    clip: cl,
                    dest_x: img.dest_x as i64 + cl.x_diff,
                    dest_y: img.dest_y as i64 + cl.y_diff,
                    layer: img.empty_2,
                    draw_type: img.draw_type,
                    render_z: img.render_z,
                },
            )
        },
        None => None,
    }
}

/// The sprites to show for the player's current animation frame: for each
/// image with a source area and each sprite it refers to that is cached,
/// the clipped source and its place relative to the player.
pub fn current_frame_sub_sprites_exec<H>(
    player: &Player,
    rmd: Option<&Rmd>,
    list: Option<&ListAsset>,
    cache: &SpriteCache<H>,
) -> (v: Vec<CharSubSprite>)
    requires
        cache_sizes_ok(cache@),
    ensures
        v@ == current_frame_sub_sprites(*player, rmd, list, cache@),
{
    let mut v: Vec<CharSubSprite> = Vec::new();
    let r = match rmd {
        Some(r) => r,
        None => {
            return v;
        },
    };
    let l = match list {
        Some(l) => l,
        None => {
            return v;
        },
    };
    let ei = match current_frame_entry_exec(player, r) {
        Some(e) => e,
        None => {
            return v;
        },
    };
    if ei >= r.entries.len() {
        return v;
    }
    let images = &r.entries[ei].images;
    let mut g: usize = 0;
    while g < images.len()
        invariant
            cache_sizes_ok(cache@),
            ei < r.entries@.len(),
            *images == r.entries@[ei as int].images,
            g <= images@.len(),
            v@ == char_sub_sprites_entry(r, l, cache@, ei as int, g as nat),
        decreases images@.len() - g,
    {
        let ghost at_image = v@;
        let n_ids = images[g].image_id.len();
        let mut d: usize = 0;
        while d < n_ids
            invariant
                cache_sizes_ok(cache@),
                ei < r.entries@.len(),
                *images == r.entries@[ei as int].images,
                g < images@.len(),
                n_ids == images@[g as int].image_id@.len(),
                d <= n_ids,
                v@ == at_image + char_sub_sprites_image(r, l, cache@, ei as int, g as int, d as nat),
            decreases n_ids - d,
        {
            match char_sub_sprite_at(r, l, cache, ei, g, d) {
                Some(s) => {
                    v.push(s);
                },
                None => {},
            }
            assert(v@ =~= at_image + char_sub_sprites_image(
                r,
                l,
                cache@,
                ei as int,
                g as int,
                (d + 1) as nat,
            ));
            d = d + 1;
        }
        assert(v@ =~= char_sub_sprites_entry(r, l, cache@, ei as int, (g + 1) as nat));
        g = g + 1;
    }
    v
}

/// The phases of loading and showing the character sprites.
#[derive(Clone, Copy, Debug, PartialEq, Eq, Structural)]
pub enum CharPhase {
    Init,
    WaitingForSprites,
    Done,
}

/// Progress of loading and showing the character sprites: the phase, which
/// character the loaded sprites belong to, the handles of its sprite files,
/// and whether the shown sprites are out of date.
pub struct CharSpawnState<R> {
    pub phase: CharPhase,
    pub loaded_char: u32,
    pub rle_handles: Vec<R>,
    /// True when the frame or direction changed and the sprites must be
    /// shown again.
    pub dirty: bool,
}

/// What the character sprites need this frame.
pub enum CharSpawnAction {
    /// Nothing to do yet.
    Wait,
    /// Load these sprite files of character `char_enum`.
    LoadSprites { char_enum: u32, files: Vec<u32> },
    /// Replace the shown sprites by these.
    Spawn(Vec<CharSubSprite>),
}

impl<R> CharSpawnState<R> {
    /// Nothing loaded yet.
    pub fn new() -> (s: CharSpawnState<R>)
        ensures
            s.phase == CharPhase::Init,
            s.loaded_char == 0,
            s.rle_handles@.len() == 0,
            !s.dirty,
    {
        CharSpawnState { phase: CharPhase::Init, loaded_char: 0, rle_handles: Vec::new(), dirty: false }
    }

    /// Full reset: forces the sprites of the current character to be loaded
    /// again.
    pub fn force_reload(&mut self)
        ensures
            final(self).phase == CharPhase::Init,
            final(self).rle_handles@.len() == 0,
            !final(self).dirty,
            final(self).loaded_char == old(self).loaded_char,
    {
        self.phase = CharPhase::Init;
        self.rle_handles.clear();
        self.dirty = false;
    }

    /// Keeps the handles of the requested sprite files.
    pub fn set_rle_handles(&mut self, handles: Vec<R>)
        ensures
            final(self).rle_handles@ == handles@,
            final(self).phase == old(self).phase,
            final(self).loaded_char == old(self).loaded_char,
            final(self).dirty == old(self).dirty,
    {
        self.rle_handles = handles;
    }

    /// One frame of managing the character sprites. A change of character
    /// after spawning forces a reload. In `Init`, once the character's data
    /// and list files are loaded, the distinct sprite files of every frame of
    /// the current animation are requested and the sprites awaited. While
    /// waiting, the sprites are shown once the current frame's sprites are
    /// all cached. After that, when the sprites are out of date they are
    /// shown again, or, if the new frame's sprites are not cached, reloaded.
    pub fn step<H>(
        &mut self,
        player: &Player,
        rmd: Option<&Rmd>,
        list: Option<&ListAsset>,
        cache: &SpriteCache<H>,
    ) -> (a: CharSpawnAction)
        requires
            cache_sizes_ok(cache@),
        ensures
            ({
                let reloaded = old(self).phase == CharPhase::Done && old(self).loaded_char
                    != player.char_enum;
                let phase0 = if reloaded {
                    CharPhase::Init
                } else {
                    old(self).phase
                };
                let dirty0 = if reloaded {
                    false
                } else {
                    old(self).dirty
                };
                let handles0 = if reloaded {
                    Seq::<R>::empty()
                } else {
                    old(self).rle_handles@
                };
                let ready = current_frame_ready(*player, rmd, list, cache@);
                let sprites = current_frame_sub_sprites(*player, rmd, list, cache@);
                if phase0 == CharPhase::Init {
                    if rmd is Some && list is Some {
                        &&& a matches CharSpawnAction::LoadSprites { char_enum, files } && char_enum
                            == player.char_enum && files@.no_duplicates() && (forall|y: u32| #[trigger]
                            files@.contains(y) <==> current_anim_uses_file(
                                *player,
                                rmd->0,
                                list->0,
                                y,
                            ))
                        &&& final(self).phase == CharPhase::WaitingForSprites
                        &&& final(self).loaded_char == player.char_enum
                        &&& !final(self).dirty
                        &&& final(self).rle_handles@ == handles0
                    } else {
                        &&& a is Wait
                        &&& final(self).phase == CharPhase::Init
                        &&& final(self).loaded_char == old(self).loaded_char
                        &&& final(self).dirty == dirty0
                        &&& final(self).rle_handles@ == handles0
                    }
                } else if phase0 == CharPhase::WaitingForSprites {
                    &&& final(self).loaded_char == old(self).loaded_char
                    &&& final(self).rle_handles@ == handles0
                    &&& (if ready {
                        &&& a matches CharSpawnAction::Spawn(v) && v@ == sprites
                        &&& final(self).phase == CharPhase::Done
                        &&& !final(self).dirty
                    } else {
                        &&& a is Wait
                        &&& final(self).phase == CharPhase::WaitingForSprites
                        &&& final(self).dirty == dirty0
                    })
                } else if dirty0 {
                    &&& final(self).loaded_char == old(self).loaded_char
                    &&& (if ready {
                        &&& a matches CharSpawnAction::Spawn(v) && v@ == sprites
                        &&& final(self).phase == CharPhase::Done
                        &&& !final(self).dirty
                        &&& final(self).rle_handles@ == handles0
                    } else {
                        &&& a is Wait
                        &&& final(self).phase == CharPhase::Init
                        &&& final(self).rle_handles@.len() == 0
                        &&& !final(self).dirty
                    })
                } else {
                    &&& a is Wait
                    &&& final(self).phase == CharPhase::Done
                    &&& final(self).loaded_char == old(self).loaded_char
                    &&& final(self).dirty == dirty0
                    &&& final(self).rle_handles@ == handles0
                }
            }),
    {
        if self.phase == CharPhase::Done && self.loaded_char != player.char_enum {
            self.force_reload();
        }
        if self.phase == CharPhase::Init {
            let (r, l) = match (rmd, list) {
                (Some(r), Some(l)) => (r, l),
                _ => {
                    return CharSpawnAction::Wait;
                },
            };
            let files = current_anim_rle_files(player, r, l);
            self.loaded_char = player.char_enum;
            self.phase = CharPhase::WaitingForSprites;
            self.dirty = false;
            return CharSpawnAction::LoadSprites { char_enum: player.char_enum, files };
        }
        if self.phase == CharPhase::WaitingForSprites {
            if !current_frame_sprites_ready(player, rmd, list, cache) {
                return CharSpawnAction::Wait;
            }
            let sprites = current_frame_sub_sprites_exec(player, rmd, list, cache);
            self.phase = CharPhase::Done;
            self.dirty = false;
            return CharSpawnAction::Spawn(sprites);
        }
        if self.dirty {
            if !current_frame_sprites_ready(player, rmd, list, cache) {
                self.force_reload();
                return CharSpawnAction::Wait;
            }
            let sprites = current_frame_sub_sprites_exec(player, rmd, list, cache);
            self.dirty = false;
            return CharSpawnAction::Spawn(sprites);
        }
        CharSpawnAction::Wait
    }
}

/// The debug panel's edits of the player: the character type is set, and a
/// new type forces the character sprites to be loaded again; an edited
/// animation base restarts the animation and marks the sprites out of
/// date.
pub fn apply_char_panel_edit<R>(
    player: &mut Player,
    spawn: &mut CharSpawnState<R>,
    char_enum: u32,
    base_edited: bool,
)
    ensures
        *final(player) == (Player {
            char_enum,
            frame_idx: if base_edited {
                0
            } else {
                old(player).frame_idx
            },
            ..*old(player)
        }),
        char_enum != old(player).char_enum ==> final(spawn).phase == CharPhase::Init
            && final(spawn).rle_handles@.len() == 0,
        char_enum == old(player).char_enum ==> final(spawn).phase == old(spawn).phase
            && final(spawn).rle_handles@ == old(spawn).rle_handles@,
        final(spawn).loaded_char == old(spawn).loaded_char,
        final(spawn).dirty == (if base_edited {
            true
        } else if char_enum != old(player).char_enum {
            false
        } else {
            old(spawn).dirty
        }),
{
    let prev = player.char_enum;
    player.char_enum = char_enum;
    if char_enum != prev {
        spawn.force_reload();
    }
    if base_edited {
        player.frame_idx = 0;
        spawn.dirty = true;
    }
}

/// The depth step of a semantic layer above the body, in thousandths:
/// clothes 10, hair 20, skill effects 50, weapon effects 60 and 70; the
/// body and unknown layers 0.
pub open spec fn char_layer_base(layer: i32) -> int {
    if layer == 3 {
        10
    } else if layer == 4 {
        20
    } else if layer == 1 {
        50
    } else if layer == 5 {
        60
    } else if layer == 6 {
        70
    } else {
        0
    }
}

/// The depth of a character sub-sprite relative to the player, in
/// thousandths: shadows lie 10 below the body whatever their draw order;
/// every other layer lies at its step plus its draw order.
pub fn char_sprite_depth(layer: i32, render_z: i32) -> (d: i64)
    ensures
        d == (if layer == 2 {
            -10
        } else {
            char_layer_base(layer) + render_z
        }),
{
    if layer == 2 {
        return -10;
    }
    let base: i64 = if layer == 3 {
        10
    } else if layer == 4 {
        20
    } else if layer == 1 {
        50
    } else if layer == 5 {
        60
    } else if layer == 6 {
        70
    } else {
        0
    };
    base + render_z as i64
}

/// Whether a character sub-sprite is a shadow, drawn translucent.
pub fn is_shadow_sub_sprite(layer: i32) -> (b: bool)
    ensures
        b == (layer == 2),
{
    layer == 2
}

/// Whether an object image layer is drawn translucent (layers 1 to 3).
pub fn is_translucent_object_layer(layer: i32) -> (b: bool)
    ensures
        b == is_shadow_layer(layer),
{
    1 <= layer && layer <= 3
}

// ── Debug colors ────────────────────────────────────────────────────────────

/// What colors the character sprites in debug view.
#[derive(Clone, Copy, Debug, PartialEq, Eq, Structural)]
pub enum CharDebugColorBy {
    /// The semantic layer.
    Layer,
    /// The draw-type bit field.
    DrawType,
    /// The fine draw order.
    RenderZ,
}

/// Debug view settings of the character sprites.
#[derive(Clone, Copy, Debug, PartialEq, Eq, Structural)]
pub struct CharDebug {
    pub show_layers: bool,
    pub color_by: CharDebugColorBy,
}

impl CharDebug {
    /// Debug view off, coloring by layer.
    pub fn new() -> (d: CharDebug)
        ensures
            !d.show_layers,
            d.color_by == CharDebugColorBy::Layer,
    {
        CharDebug { show_layers: false, color_by: CharDebugColorBy::Layer }
    }
}

/// The number of colors of the debug palette.
pub const DEBUG_PALETTE_LEN: usize = 8;

pub open spec fn debug_palette_index_spec(v: i32) -> int {
    ((v as u32) as int * 2654435761) % 0x1_0000_0000 % 8
}

/// The palette color of any value: a multiplicative hash of the value's bits
/// modulo the palette size.
pub fn debug_palette_index(v: i32) -> (i: usize)
    ensures
        i == debug_palette_index_spec(v),
        i < DEBUG_PALETTE_LEN,
{
    let h = (v as u32).wrapping_mul(2654435761u32);
    (h as usize) % DEBUG_PALETTE_LEN
}

/// The palette color of a semantic layer: layers 0 to 6 have their own
/// color (the palette colors 0 to 6), others are gray (`None`).
pub fn layer_palette_index(layer: i32) -> (i: Option<usize>)
    ensures
        0 <= layer <= 6 ==> i == Some(layer as usize),
        !(0 <= layer <= 6) ==> i is None,
{
    if 0 <= layer && layer <= 6 {
        Some(layer as usize)
    } else {
        None
    }
}

/// How a character sub-sprite is tinted.
#[derive(Clone, Copy, Debug, PartialEq, Eq, Structural)]
pub enum SpriteTint {
    /// A debug palette color.
    Palette(usize),
    /// The gray of layers without a color.
    Gray,
    /// No debug tint: white, translucent for shadows.
    Plain { shadow: bool },
}

/// The tint of a character sub-sprite: with the debug view on, the color of
/// its layer, draw type or draw order as chosen; otherwise plain, with
/// shadows translucent.
pub fn char_sprite_tint(debug: &CharDebug, layer: i32, draw_type: i32, render_z: i32) -> (t:
    SpriteTint)
    ensures
        !debug.show_layers ==> t == (SpriteTint::Plain { shadow: layer == 2 }),
        debug.show_layers && debug.color_by == CharDebugColorBy::Layer ==> t == (if 0 <= layer <= 6 {
            SpriteTint::Palette(layer as usize)
        } else {
            SpriteTint::Gray
        }),
        debug.show_layers && debug.color_by == CharDebugColorBy::DrawType ==> t == SpriteTint::Palette(
            debug_palette_index_spec(draw_type) as usize,
        ),
        debug.show_layers && debug.color_by == CharDebugColorBy::RenderZ ==> t == SpriteTint::Palette(
            debug_palette_index_spec(render_z) as usize,
        ),
{
    if !debug.show_layers {
        return SpriteTint::Plain { shadow: layer == 2 };
    }
    match debug.color_by {
        CharDebugColorBy::Layer => match layer_palette_index(layer) {
            Some(i) => SpriteTint::Palette(i),
            None => SpriteTint::Gray,
        },
        CharDebugColorBy::DrawType => SpriteTint::Palette(debug_palette_index(draw_type)),
        CharDebugColorBy::RenderZ => SpriteTint::Palette(debug_palette_index(render_z)),
    }
}

} // verus!
