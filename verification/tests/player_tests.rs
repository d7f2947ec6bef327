use novluno::asset_loader::SpriteKind;
use novluno::collision::CollisionGrid;
use novluno::entity::{Entry, ListAsset, ListItem, Rmd, RmdAnimation, RmdEntry, RmdImage};
use novluno::player::{
    advance_char_anim, char_sprite_tint, current_anim_rle_files, current_frame_sprites_ready,
    current_frame_sub_sprites_exec, debug_palette_index, direction_from_delta, is_shadow_sub_sprite,
    is_translucent_object_layer, layer_palette_index, movement_bounds, player_movement, tile_to_world,
    CharAction, CharDebug, CharDebugColorBy, CharPhase, CharSpawnAction, CharSpawnState, Direction,
    MoveBounds, MoveInput, Player, SpriteTint, DEBUG_PALETTE_LEN,
};
use novluno::resources::{CachedSprite, SpriteCache};

fn image(src: (i32, i32, i32, i32), dest: (i32, i32), layer: i32, ids: Vec<u32>) -> RmdImage {
    RmdImage {
        source_x1: src.0,
        source_y1: src.1,
        source_x2: src.2,
        source_y2: src.3,
        dest_x: dest.0,
        dest_y: dest.1,
        render_z: 4,
        empty_2: layer,
        draw_type: 9,
        image_id: ids,
    }
}

/// A character data file whose animation `key` has the given frames.
fn char_rmd(entries: Vec<Vec<RmdImage>>, key: usize, frames: Vec<i32>) -> Rmd {
    let mut animations: Vec<RmdAnimation> = (0..=key).map(|_| RmdAnimation { frames: vec![] }).collect();
    animations[key].frames = frames;
    Rmd {
        animation_count: animations.len() as u32,
        animation_entry_count: 0,
        entries: entries.into_iter().map(|images| RmdEntry { images }).collect(),
        animations,
    }
}

fn list(entries: &[(u32, u32)]) -> ListAsset {
    ListAsset { items: entries.iter().map(|&(f, i)| ListItem { entry: Entry::new(f, i) }).collect() }
}

fn keys(up: bool, down: bool, left: bool, right: bool) -> MoveInput {
    MoveInput { up, down, left, right }
}

/// A 4 by 4 grid where only the upper-left slot of tile (2, 1) is blocked.
fn open_grid() -> CollisionGrid {
    let mut blocked = vec![false; 32];
    blocked[(1 * 4 + 2) * 2] = true;
    CollisionGrid { width: 4, height: 4, blocked }
}

#[test]
fn directions_and_actions() {
    assert_eq!(Direction::default(), Direction::Right);
    assert_eq!(CharAction::default(), CharAction::Idle);
    let numbers: Vec<usize> = [
        Direction::DownLeft,
        Direction::Down,
        Direction::DownRight,
        Direction::Left,
        Direction::Right,
        Direction::UpLeft,
        Direction::Up,
        Direction::UpRight,
    ]
    .iter()
    .map(|d| d.as_usize())
    .collect();
    assert_eq!(numbers, vec![1, 2, 3, 4, 6, 7, 8, 9]);
    assert_eq!(Direction::UpLeft.name(), "UpLeft");
    assert_eq!(CharAction::Walking.anim_base(), 0);
    assert_eq!(CharAction::Run.anim_base(), 10);
    assert_eq!(CharAction::Idle.anim_base(), 60);
    assert_eq!(CharAction::Run.name(), "Run");
    let p = Player::default();
    assert_eq!((p.char_enum, p.tile_x, p.tile_y, p.tile_pos, p.frame_idx), (0, 5, 5, 0, 0));
    assert_eq!((p.direction, p.action), (Direction::Right, CharAction::Idle));
}

#[test]
fn world_positions_of_tiles() {
    assert_eq!(tile_to_world(5, 5, 0), (252, -126));
    assert_eq!(tile_to_world(2, 3, 1), (132, -90));
    assert_eq!(tile_to_world(0, 0, 7), (12, -6));
    assert_eq!(tile_to_world(i32::MAX, i32::MIN, 1), (i32::MAX as i64 * 48 + 36, -(i32::MIN as i64 * 24 + 18)));
}

#[test]
fn facing_from_a_move() {
    assert_eq!(direction_from_delta(1, 0), Direction::Right);
    assert_eq!(direction_from_delta(-1, 0), Direction::Left);
    assert_eq!(direction_from_delta(0, -1), Direction::Up);
    assert_eq!(direction_from_delta(0, 1), Direction::Down);
    assert_eq!(direction_from_delta(1, -1), Direction::UpRight);
    assert_eq!(direction_from_delta(-1, -1), Direction::UpLeft);
    assert_eq!(direction_from_delta(1, 1), Direction::DownRight);
    assert_eq!(direction_from_delta(-1, 1), Direction::DownLeft);
    assert_eq!(direction_from_delta(0, 0), Direction::DownLeft);
    assert_eq!(direction_from_delta(5, -7), Direction::UpRight);
}

#[test]
fn walkable_area() {
    assert_eq!(movement_bounds(None), MoveBounds { min_x: 1, max_x: 48, min_y: 1, max_y: 48 });
    assert_eq!(movement_bounds(Some((10, 6))), MoveBounds { min_x: 1, max_x: 8, min_y: 1, max_y: 4 });
    assert_eq!(movement_bounds(Some((2, 0))), MoveBounds { min_x: 1, max_x: 1, min_y: 1, max_y: 1 });
}

#[test]
fn walking_respects_collision_and_bounds() {
    let grid = open_grid();
    let bounds = MoveBounds { min_x: 1, max_x: 2, min_y: 1, max_y: 2 };
    let mut p = Player { tile_x: 1, tile_y: 1, frame_idx: 3, ..Player::default() };

    // the tile to the right is blocked: the player turns and walks on the spot
    let out = player_movement(&mut p, keys(false, false, false, true), bounds, true, &grid);
    assert!(!out.moved && out.restart_cooldown && out.dirty);
    assert_eq!((p.tile_x, p.tile_y), (1, 1));
    assert_eq!((p.direction, p.action, p.frame_idx), (Direction::Right, CharAction::Walking, 0));

    // down is free
    let out = player_movement(&mut p, keys(false, true, false, false), bounds, true, &grid);
    assert!(out.moved && out.restart_cooldown && out.dirty);
    assert_eq!((p.tile_x, p.tile_y, p.direction), (1, 2, Direction::Down));

    // the edge of the walkable area: no step, no cooldown
    let out = player_movement(&mut p, keys(false, true, false, false), bounds, true, &grid);
    assert!(!out.moved && !out.restart_cooldown && !out.dirty);
    assert_eq!((p.tile_x, p.tile_y), (1, 2));

    // cooldown still running: only the facing changes
    let out = player_movement(&mut p, keys(true, false, false, true), bounds, false, &grid);
    assert!(!out.moved && !out.restart_cooldown && out.dirty);
    assert_eq!((p.tile_x, p.tile_y, p.direction), (1, 2, Direction::UpRight));

    // opposite keys cancel out: the player idles
    let out = player_movement(&mut p, keys(true, true, false, false), bounds, true, &grid);
    assert!(!out.moved && !out.restart_cooldown && out.dirty);
    assert_eq!((p.action, p.frame_idx, p.direction), (CharAction::Idle, 0, Direction::UpRight));

    // the lower-right slot of tile (2, 1) is free
    let mut q = Player { tile_x: 1, tile_y: 1, tile_pos: 1, ..Player::default() };
    let out = player_movement(&mut q, keys(false, false, false, true), bounds, true, &grid);
    assert!(out.moved);
    assert_eq!((q.tile_x, q.tile_y), (2, 1));
}

#[test]
fn walking_without_a_grid_is_free() {
    let grid = CollisionGrid::new();
    let bounds = movement_bounds(None);
    let mut p = Player::default();
    let out = player_movement(&mut p, keys(true, false, true, false), bounds, true, &grid);
    assert!(out.moved);
    assert_eq!((p.tile_x, p.tile_y, p.direction), (4, 4, Direction::UpLeft));
}

#[test]
fn animation_frames_wrap() {
    // idle facing right is animation 66
    let rmd = char_rmd(vec![], 66, vec![4, 5, 6]);
    let mut p = Player::default();
    assert!(advance_char_anim(&mut p, &rmd));
    assert_eq!(p.frame_idx, 1);
    assert!(advance_char_anim(&mut p, &rmd));
    assert!(advance_char_anim(&mut p, &rmd));
    assert_eq!(p.frame_idx, 0);
    let single = char_rmd(vec![], 66, vec![4]);
    assert!(!advance_char_anim(&mut p, &single));
    assert_eq!(p.frame_idx, 0);
    p.direction = Direction::UpRight;
    assert!(!advance_char_anim(&mut p, &rmd));
    assert_eq!(p.frame_idx, 0);
}

fn walking_right_world() -> (Player, Rmd, ListAsset) {
    // walking right is animation 6; its frames show entries 0 and 1
    let rmd = char_rmd(
        vec![
            vec![image((0, 0, 10, 10), (5, -3), 0, vec![0]), image((0, 0, 0, 4), (0, 0), 3, vec![0])],
            vec![image((0, 0, 4, 4), (1, 1), 2, vec![1, 7])],
        ],
        6,
        vec![0, 1, -2],
    );
    let l = list(&[(100, 0), (101, 3)]);
    let p = Player { action: CharAction::Walking, ..Player::default() };
    (p, rmd, l)
}

#[test]
fn sprite_files_of_the_current_animation() {
    let (p, rmd, l) = walking_right_world();
    let mut files = current_anim_rle_files(&p, &rmd, &l);
    files.sort();
    assert_eq!(files, vec![100, 101]);
    let idle = Player::default();
    assert!(current_anim_rle_files(&idle, &rmd, &l).is_empty());
}

#[test]
fn sub_sprites_of_the_current_frame() {
    let (p, rmd, l) = walking_right_world();
    let mut cache: SpriteCache<u32> = SpriteCache::new();
    assert!(!current_frame_sprites_ready(&p, Some(&rmd), Some(&l), &cache));
    assert!(!current_frame_sprites_ready(&p, Some(&rmd), None, &cache));
    cache.insert(SpriteKind::Character, Entry::new(100, 0), CachedSprite { handle: 1, x_off: 2, y_off: 0, width: 8, height: 8 });
    assert!(current_frame_sprites_ready(&p, Some(&rmd), Some(&l), &cache));
    let v = current_frame_sub_sprites_exec(&p, Some(&rmd), Some(&l), &cache);
    // the second image has no source area
    assert_eq!(v.len(), 1);
    assert_eq!(v[0].entry, Entry::new(100, 0));
    assert_eq!((v[0].clip.src.min_x, v[0].clip.src.max_x, v[0].clip.src.max_y), (0, 8, 8));
    assert_eq!((v[0].dest_x, v[0].dest_y), (7, -3));
    assert_eq!((v[0].layer, v[0].draw_type, v[0].render_z), (0, 9, 4));
    assert!(current_frame_sub_sprites_exec(&p, None, Some(&l), &cache).is_empty());
}

#[test]
fn character_sprite_lifecycle() {
    let (mut p, rmd, l) = walking_right_world();
    let mut cache: SpriteCache<u32> = SpriteCache::new();
    let mut state: CharSpawnState<u32> = CharSpawnState::new();
    assert!(matches!(state.step(&p, None, Some(&l), &cache), CharSpawnAction::Wait));
    assert_eq!(state.phase, CharPhase::Init);

    match state.step(&p, Some(&rmd), Some(&l), &cache) {
        CharSpawnAction::LoadSprites { char_enum, mut files } => {
            files.sort();
            assert_eq!((char_enum, files), (0, vec![100, 101]));
        }
        _ => panic!("expected a load request"),
    }
    assert_eq!(state.phase, CharPhase::WaitingForSprites);
    state.set_rle_handles(vec![1, 2]);
    assert!(matches!(state.step(&p, Some(&rmd), Some(&l), &cache), CharSpawnAction::Wait));

    cache.insert(SpriteKind::Character, Entry::new(100, 0), CachedSprite { handle: 1, x_off: 0, y_off: 0, width: 8, height: 8 });
    match state.step(&p, Some(&rmd), Some(&l), &cache) {
        CharSpawnAction::Spawn(v) => assert_eq!(v.len(), 1),
        _ => panic!("expected sprites"),
    }
    assert_eq!(state.phase, CharPhase::Done);
    assert!(matches!(state.step(&p, Some(&rmd), Some(&l), &cache), CharSpawnAction::Wait));

    // the next frame's sprite is not cached: everything is loaded again
    p.frame_idx = 1;
    state.dirty = true;
    assert!(matches!(state.step(&p, Some(&rmd), Some(&l), &cache), CharSpawnAction::Wait));
    assert_eq!(state.phase, CharPhase::Init);
    assert!(state.rle_handles.is_empty() && !state.dirty);

    // a cached next frame is shown at once
    cache.insert(SpriteKind::Character, Entry::new(101, 3), CachedSprite { handle: 2, x_off: 0, y_off: 0, width: 8, height: 8 });
    assert!(matches!(state.step(&p, Some(&rmd), Some(&l), &cache), CharSpawnAction::LoadSprites { .. }));
    assert!(matches!(state.step(&p, Some(&rmd), Some(&l), &cache), CharSpawnAction::Spawn(_)));
    state.dirty = true;
    match state.step(&p, Some(&rmd), Some(&l), &cache) {
        CharSpawnAction::Spawn(v) => assert_eq!(v[0].layer, 2),
        _ => panic!("expected sprites"),
    }
    assert!(!state.dirty);

    // another character forces a reload
    p.char_enum = 3;
    match state.step(&p, Some(&rmd), Some(&l), &cache) {
        CharSpawnAction::LoadSprites { char_enum, .. } => assert_eq!(char_enum, 3),
        _ => panic!("expected a load request"),
    }
    assert_eq!(state.loaded_char, 3);
    state.force_reload();
    assert_eq!((state.phase, state.loaded_char), (CharPhase::Init, 3));
}

#[test]
fn layers_and_tints() {
    assert!(is_shadow_sub_sprite(2) && !is_shadow_sub_sprite(3));
    assert!(is_translucent_object_layer(1) && is_translucent_object_layer(3));
    assert!(!is_translucent_object_layer(0) && !is_translucent_object_layer(4));
    assert_eq!(DEBUG_PALETTE_LEN, 8);
    assert_eq!(debug_palette_index(0), 0);
    assert_eq!(debug_palette_index(1), 1);
    assert_eq!(debug_palette_index(-1), 7);
    assert_eq!(debug_palette_index(100), 4);
    assert_eq!(layer_palette_index(6), Some(6));
    assert_eq!(layer_palette_index(7), None);
    assert_eq!(layer_palette_index(-1), None);

    let off = CharDebug::new();
    assert!(!off.show_layers);
    assert_eq!(char_sprite_tint(&off, 2, 0, 0), SpriteTint::Plain { shadow: true });
    assert_eq!(char_sprite_tint(&off, 1, 0, 0), SpriteTint::Plain { shadow: false });
    let by_layer = CharDebug { show_layers: true, color_by: CharDebugColorBy::Layer };
    assert_eq!(char_sprite_tint(&by_layer, 4, 0, 0), SpriteTint::Palette(4));
    assert_eq!(char_sprite_tint(&by_layer, 9, 0, 0), SpriteTint::Gray);
    let by_type = CharDebug { show_layers: true, color_by: CharDebugColorBy::DrawType };
    assert_eq!(char_sprite_tint(&by_type, 0, 100, 1), SpriteTint::Palette(4));
    let by_z = CharDebug { show_layers: true, color_by: CharDebugColorBy::RenderZ };
    assert_eq!(char_sprite_tint(&by_z, 0, 100, -1), SpriteTint::Palette(7));
}
