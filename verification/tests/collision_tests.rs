use novluno::collision::{collision_markers, CollisionGrid, CollisionMarker, CollisionOverlaySettings};
use novluno::entity::{Entry, GameMap, MapTile};

fn tile(collision: u32, warp: u32) -> MapTile {
    MapTile {
        tle_rmd_entry: Entry::new(0, 0),
        obj_rmd_entry: Entry::new(0, 0),
        collision,
        warp,
    }
}

fn map_3x3(second_and_third_rows: [MapTile; 6]) -> GameMap {
    let mut tiles = vec![tile(5, 0), tile(5, 0), tile(5, 0)];
    tiles.extend_from_slice(&second_and_third_rows);
    GameMap { name: String::from("test"), size_x: 3, size_y: 3, tiles }
}

#[test]
fn first_row_is_fully_blocked() {
    let map = map_3x3([tile(5, 0); 6]);
    let g = CollisionGrid::build(&map);
    for x in 0..3 {
        assert!(g.is_blocked(x, 0, 0));
        assert!(g.is_blocked(x, 0, 1));
    }
    assert!(!g.is_blocked(1, 1, 0));
    assert!(!g.is_blocked(1, 1, 1));
}

#[test]
fn collision_codes_block_sub_tiles() {
    let map = map_3x3([
        tile(0, 0),
        tile(24, 0),
        tile(96, 0),
        tile(128 + 24, 0),
        tile(7, 248),
        tile(1, 0),
    ]);
    let g = CollisionGrid::build(&map);
    assert_eq!(g.width, 3);
    assert_eq!(g.height, 3);
    assert_eq!(g.blocked.len(), 18);
    // code 0: both sub-tiles
    assert!(g.is_blocked(0, 1, 0) && g.is_blocked(0, 1, 1));
    // code 24: only the lower-right sub-tile
    assert!(!g.is_blocked(1, 1, 0) && g.is_blocked(1, 1, 1));
    // code 96: only the upper-left sub-tile
    assert!(g.is_blocked(2, 1, 0) && !g.is_blocked(2, 1, 1));
    // codes count modulo 128
    assert!(!g.is_blocked(0, 2, 0) && g.is_blocked(0, 2, 1));
    // warp 248 blocks both sub-tiles
    assert!(g.is_blocked(1, 2, 0) && g.is_blocked(1, 2, 1));
    // any other code is free
    assert!(!g.is_blocked(2, 2, 0) && !g.is_blocked(2, 2, 1));
}

#[test]
fn outside_the_grid_is_blocked() {
    let map = map_3x3([tile(5, 0); 6]);
    let g = CollisionGrid::build(&map);
    assert!(g.is_blocked(-1, 1, 0));
    assert!(g.is_blocked(1, -1, 0));
    assert!(g.is_blocked(3, 1, 0));
    assert!(g.is_blocked(1, 3, 1));
}

#[test]
fn empty_grid_blocks_nothing() {
    let g = CollisionGrid::new();
    assert!(!g.is_blocked(0, 0, 0));
    assert!(!g.is_blocked(-5, 100, 1));
}

#[test]
fn collision_overlay_markers() {
    // 2 by 2: tile (1, 0) upper-left blocked, tile (0, 1) both blocked
    let grid = CollisionGrid { width: 2, height: 2, blocked: vec![false, false, true, false, true, true, false, false] };
    let mut settings = CollisionOverlaySettings::new();
    assert!(collision_markers(&settings, &grid).is_empty());
    settings.show = true;
    assert_eq!(
        collision_markers(&settings, &grid),
        vec![
            CollisionMarker { x: 48 + 18, y: -12, tile_pos: 0 },
            CollisionMarker { x: 18, y: -24 - 12, tile_pos: 0 },
            CollisionMarker { x: 42, y: -24 - 24, tile_pos: 1 },
        ]
    );
    assert!(collision_markers(&settings, &CollisionGrid::new()).is_empty());
}

#[test]
fn grid_shape_check() {
    assert!(CollisionGrid::new().well_formed());
    assert!(CollisionGrid { width: 2, height: 1, blocked: vec![false; 4] }.well_formed());
    assert!(!CollisionGrid { width: 2, height: 1, blocked: vec![false; 3] }.well_formed());
}
