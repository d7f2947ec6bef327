//! Integer constants of the client.
use vstd::prelude::*;

verus! {

/// Width of an isometric tile in world pixels.
pub const TILE_W_PX: i32 = 48;

/// Height of an isometric tile in world pixels.
pub const TILE_H_PX: i32 = 24;

/// The highest map number.
pub const MAX_MAP: usize = 234;

/// The map shown first.
pub const STARTING_MAP: usize = 1;

/// Extra tile margin rendered beyond the visible viewport on every side.
pub const RENDER_MARGIN_TILES: i32 = 1;

/// Frames to wait for sprites before spawning a map with whatever is cached.
pub const SPRITE_LOAD_TIMEOUT_FRAMES: u32 = 300;

} // verus!
