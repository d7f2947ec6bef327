use novluno::camera::MapBounds;
use novluno::classic_render::{
    classic_layer_sprites, classic_object_dest, classic_object_source, classic_tile_corner, classic_tile_draw,
    classic_tile_rects, glyph_pixel_offset,
    layer_ids_in_list, ClassicSprite, ScreenRect,
};
use novluno::entity::{Entry, GameMap, ListAsset, ListItem, MapTile, Rmd, RmdEntry, RmdImage};
use novluno::map_spawn::LoadedRmds;
use novluno::paths::MapLayer;
use novluno::player::{apply_char_panel_edit, char_sprite_depth, CharPhase, CharSpawnState, Player};

fn image(src: (i32, i32, i32, i32), dest: (i32, i32), ids: Vec<u32>) -> RmdImage {
    RmdImage {
        source_x1: src.0,
        source_y1: src.1,
        source_x2: src.2,
        source_y2: src.3,
        dest_x: dest.0,
        dest_y: dest.1,
        render_z: 0,
        empty_2: 0,
        draw_type: 0,
        image_id: ids,
    }
}

fn rmd(entries: Vec<Vec<RmdImage>>) -> Rmd {
    Rmd {
        animation_count: 0,
        animation_entry_count: 0,
        entries: entries.into_iter().map(|images| RmdEntry { images }).collect(),
        animations: vec![],
    }
}

fn tile(tle: (u32, u32), obj: (u32, u32), collision: u32) -> MapTile {
    MapTile { tle_rmd_entry: Entry::new(tle.0, tle.1), obj_rmd_entry: Entry::new(obj.0, obj.1), collision, warp: 0 }
}

#[test]
fn classic_layers_in_tile_order() {
    let map = GameMap {
        name: String::new(),
        size_x: 2,
        size_y: 2,
        tiles: vec![tile((1, 1), (3, 0), 5), tile((0, 0), (0, 0), 0), tile((1, 0), (4, 0), 7), tile((1, 9), (3, 0), 0)],
    };
    let tle = rmd(vec![vec![image((0, 0, 48, 24), (0, 0), vec![0])], vec![image((48, 0, 96, 24), (0, 0), vec![1, 0])]]);
    let obj = rmd(vec![vec![image((2, 3, 30, 40), (-5, 6), vec![0])]]);
    let mut tles = LoadedRmds::new();
    tles.add(1, &tle);
    let mut objs = LoadedRmds::new();
    objs.add(3, &obj);
    let list = ListAsset { items: vec![ListItem { entry: Entry::new(10, 0) }, ListItem { entry: Entry::new(11, 4) }] };

    let t = classic_layer_sprites(&map, &tles, &list, MapLayer::Tile);
    let placed: Vec<(i32, i32, Entry, u32)> = t.iter().map(|s| (s.tile_x, s.tile_y, s.entry, s.collision)).collect();
    assert_eq!(
        placed,
        vec![(0, 0, Entry::new(11, 4), 5), (0, 0, Entry::new(10, 0), 5), (0, 1, Entry::new(10, 0), 7)]
    );
    assert_eq!((t[0].source_x1, t[0].source_x2), (48, 96));

    let o = classic_layer_sprites(&map, &objs, &list, MapLayer::Object);
    assert_eq!(o.len(), 2);
    assert_eq!((o[0].tile_x, o[0].tile_y, o[1].tile_x, o[1].tile_y), (0, 0, 1, 1));
    assert_eq!((o[1].dest_x, o[1].dest_y), (-5, 6));
}

fn sprite(tile_x: i32, tile_y: i32) -> ClassicSprite {
    ClassicSprite {
        tile_x,
        tile_y,
        collision: 0,
        entry: Entry::new(1, 2),
        source_x1: 2,
        source_y1: 3,
        source_x2: 30,
        source_y2: 40,
        dest_x: -5,
        dest_y: 6,
    }
}

#[test]
fn classic_rectangles() {
    let s = sprite(2, 3);
    let (src, dst) = classic_tile_rects(&s, -24, -48);
    assert_eq!(src, ScreenRect { x: 2, y: 3, w: 28, h: 37 });
    assert_eq!(dst, ScreenRect { x: 2 * 48 - 24, y: 3 * 24 - 48, w: 48, h: 24 });
    assert_eq!(classic_object_source(&s, 4, -1), (-2, 4, 26, 41));
    // the part left of the sprite shifts the destination right
    assert_eq!(classic_object_dest(&s, -2, 4, true, -24, -48), (2 - 24 + 96 - 5, 0 - 48 + 72 + 6));
    assert_eq!(classic_object_dest(&s, -2, -7, false, 0, 0), (96 - 5, 72 + 6));
}

#[test]
fn map_bounds_follow_the_map() {
    let mut b = MapBounds::new();
    assert_eq!((b.width_tiles, b.height_tiles), (0, 0));
    b.update_from_map(None);
    assert_eq!((b.width_tiles, b.height_tiles), (0, 0));
    let map = GameMap { name: String::new(), size_x: 120, size_y: 80, tiles: vec![] };
    b.update_from_map(Some(&map));
    assert_eq!((b.width_tiles, b.height_tiles), (120, 80));
    b.update_from_map(None);
    assert_eq!((b.width_tiles, b.height_tiles), (120, 80));
}

#[test]
fn character_panel_edits() {
    let mut p = Player { frame_idx: 4, ..Player::default() };
    let mut s: CharSpawnState<u32> = CharSpawnState::new();
    s.phase = CharPhase::Done;
    s.rle_handles = vec![1, 2];
    apply_char_panel_edit(&mut p, &mut s, 0, false);
    assert_eq!((p.char_enum, p.frame_idx, s.phase, s.dirty), (0, 4, CharPhase::Done, false));
    apply_char_panel_edit(&mut p, &mut s, 0, true);
    assert_eq!((p.frame_idx, s.phase, s.dirty), (0, CharPhase::Done, true));
    p.frame_idx = 2;
    apply_char_panel_edit(&mut p, &mut s, 7, false);
    assert_eq!((p.char_enum, p.frame_idx, s.phase, s.dirty), (7, 2, CharPhase::Init, false));
    assert!(s.rle_handles.is_empty());
    assert_eq!(s.loaded_char, 0);
}

#[test]
fn character_sprite_depths() {
    assert_eq!(char_sprite_depth(2, 100), -10);
    assert_eq!(char_sprite_depth(0, 3), 3);
    assert_eq!(char_sprite_depth(3, 3), 13);
    assert_eq!(char_sprite_depth(4, -1), 19);
    assert_eq!(char_sprite_depth(1, 0), 50);
    assert_eq!(char_sprite_depth(5, 2), 62);
    assert_eq!(char_sprite_depth(6, 0), 70);
    assert_eq!(char_sprite_depth(9, 4), 4);
    assert!(char_sprite_depth(2, 0) < char_sprite_depth(0, 0));
}

#[test]
fn glyph_pixels_in_the_texture() {
    assert_eq!(glyph_pixel_offset(0, 0, 10, 4, 40), Some(0));
    assert_eq!(glyph_pixel_offset(3, 2, 10, 4, 48), Some(2 * 48 + 12));
    assert_eq!(glyph_pixel_offset(10, 0, 10, 4, 40), None);
    assert_eq!(glyph_pixel_offset(0, 4, 10, 4, 40), None);
    assert_eq!(glyph_pixel_offset(-1, 0, 10, 4, 40), None);
}

#[test]
fn listed_ids_of_a_layer() {
    let map = GameMap { name: String::new(), size_x: 1, size_y: 2, tiles: vec![tile((1, 0), (0, 0), 0), tile((1, 1), (0, 0), 0)] };
    let tle = rmd(vec![vec![image((0, 0, 1, 1), (0, 0), vec![0])], vec![image((0, 0, 1, 1), (0, 0), vec![0, 2])]]);
    let mut tles = LoadedRmds::new();
    tles.add(1, &tle);
    let short = ListAsset { items: vec![ListItem { entry: Entry::new(1, 1) }, ListItem { entry: Entry::new(1, 2) }] };
    assert!(!layer_ids_in_list(&map, &tles, &short, MapLayer::Tile));
    let long = ListAsset { items: vec![ListItem { entry: Entry::new(1, 1) }; 3] };
    assert!(layer_ids_in_list(&map, &tles, &long, MapLayer::Tile));
    assert!(layer_ids_in_list(&map, &LoadedRmds::new(), &short, MapLayer::Tile));
}

#[test]
fn tiles_outside_the_view_are_not_drawn() {
    let s = sprite(2, 3);
    assert_eq!(classic_tile_corner(&s), (96, 72));
    assert_eq!(classic_tile_draw(&s, false, -24, -48), None);
    assert_eq!(classic_tile_draw(&s, true, -24, -48), Some(classic_tile_rects(&s, -24, -48)));
}
