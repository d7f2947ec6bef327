use std::collections::HashSet;

use novluno::asset_loader::SpriteKind;
use novluno::collision::CollisionGrid;
use novluno::constants::MAX_MAP;
use novluno::entity::{Entry, GameMap, ListAsset, ListItem, MapTile, Rmd, RmdAnimation, RmdEntry, RmdImage};
use novluno::map_spawn::{
    all_sprites_ready, anim_entry_indices, anim_fits, layer_anim_fits, change_map, collect_rle_file_nums, layer_rle_files,
    layer_rmd_files, map_buttons, map_cycle_input, next_anim_frame, next_map, next_tile,
    object_layer_draw_list, plan_map_spawn, prev_map, rmds_loaded, sort_by_depth, sprites_ready,
    tile_layer_draw_list, LoadedRmds, Phase, SpawnState,
};
use novluno::paths::MapLayer;
use novluno::resources::{CachedSprite, MapIndex, SpriteCache};
use novluno::systems::clip_sprite_src;

fn image(src: (i32, i32, i32, i32), dest: (i32, i32), render_z: i32, layer: i32, ids: Vec<u32>) -> RmdImage {
    RmdImage {
        source_x1: src.0,
        source_y1: src.1,
        source_x2: src.2,
        source_y2: src.3,
        dest_x: dest.0,
        dest_y: dest.1,
        render_z,
        empty_2: layer,
        draw_type: 0,
        image_id: ids,
    }
}

fn rmd(entries: Vec<Vec<RmdImage>>, animation_entry_count: u32, frames: Vec<i32>) -> Rmd {
    let animations = if frames.is_empty() { vec![] } else { vec![RmdAnimation { frames }] };
    Rmd {
        animation_count: animations.len() as u32,
        animation_entry_count,
        entries: entries.into_iter().map(|images| RmdEntry { images }).collect(),
        animations,
    }
}

fn list(entries: &[(u32, u32)]) -> ListAsset {
    ListAsset { items: entries.iter().map(|&(f, i)| ListItem { entry: Entry::new(f, i) }).collect() }
}

fn tile(tle: (u32, u32), obj: (u32, u32)) -> MapTile {
    MapTile { tle_rmd_entry: Entry::new(tle.0, tle.1), obj_rmd_entry: Entry::new(obj.0, obj.1), collision: 1, warp: 0 }
}

fn cached(c: &mut SpriteCache<u32>, kind: SpriteKind, file: u32, index: u32, w: i32, h: i32) {
    c.insert(kind, Entry::new(file, index), CachedSprite { handle: file * 100 + index, x_off: 0, y_off: 0, width: w, height: h });
}

#[test]
fn animation_entry_indices() {
    let still = rmd(vec![], 4, vec![]);
    assert_eq!(anim_entry_indices(&still, 5), vec![5]);
    let one_frame = rmd(vec![], 4, vec![3]);
    assert_eq!(anim_entry_indices(&one_frame, 5), vec![5]);
    let mut counted_out = rmd(vec![], 4, vec![0, 1]);
    counted_out.animation_count = 0;
    assert_eq!(anim_entry_indices(&counted_out, 5), vec![5]);
    let looping = rmd(vec![], 3, vec![0, 2, -1]);
    assert_eq!(anim_entry_indices(&looping, 1), vec![1, 7, 1]);
}

#[test]
fn loaded_data_files_lookup() {
    let a = rmd(vec![], 0, vec![]);
    let b = rmd(vec![], 1, vec![]);
    let mut set = LoadedRmds::new();
    assert!(set.get(3).is_none());
    set.add(3, &a);
    set.add(4, &b);
    set.add(3, &b);
    assert_eq!(set.get(3).unwrap().animation_entry_count, 0);
    assert_eq!(set.get(4).unwrap().animation_entry_count, 1);
    assert!(rmds_loaded(&HashSet::from([3, 4]), &set));
    assert!(!rmds_loaded(&HashSet::from([3, 5]), &set));
    assert!(rmds_loaded(&HashSet::new(), &set));
}

#[test]
fn files_a_layer_needs() {
    let map = GameMap {
        name: String::new(),
        size_x: 2,
        size_y: 2,
        tiles: vec![tile((1, 0), (0, 0)), tile((2, 0), (5, 1)), tile((1, 1), (5, 0)), tile((0, 0), (0, 0))],
    };
    assert_eq!(layer_rmd_files(&map, MapLayer::Tile), HashSet::from([1, 2]));
    assert_eq!(layer_rmd_files(&map, MapLayer::Object), HashSet::from([5]));

    // data file 1: entry 0 uses list items 0 and 1, entry 1 uses item 2; animated over 2 frames
    let tle1 = rmd(
        vec![
            vec![image((0, 0, 4, 4), (0, 0), 0, 0, vec![0, 1])],
            vec![image((0, 0, 4, 4), (0, 0), 0, 0, vec![2, 9])],
            vec![image((0, 0, 4, 4), (0, 0), 0, 0, vec![3])],
        ],
        1,
        vec![0, 2],
    );
    let tlist = list(&[(10, 0), (11, 0), (12, 0), (13, 0)]);
    let mut set = LoadedRmds::new();
    set.add(1, &tle1);
    // frames 0 and 2 of entry 0: entries 0 and 2, in order
    assert_eq!(collect_rle_file_nums(1, 0, set.get(1), &tlist), vec![10, 11, 13]);
    // entry 1 then entry 3 (missing): item 9 is not listed
    assert_eq!(collect_rle_file_nums(1, 1, set.get(1), &tlist), vec![12]);
    assert!(collect_rle_file_nums(0, 0, set.get(1), &tlist).is_empty());
    assert!(collect_rle_file_nums(2, 0, set.get(2), &tlist).is_empty());
    // an image that draws the same sprite twice lists its file twice
    let twice = rmd(vec![vec![image((0, 0, 4, 4), (0, 0), 0, 0, vec![0, 0]), image((0, 0, 4, 4), (0, 0), 0, 0, vec![1])]], 0, vec![]);
    let mut twice_set = LoadedRmds::new();
    twice_set.add(5, &twice);
    assert_eq!(collect_rle_file_nums(5, 0, twice_set.get(5), &list(&[(7, 0), (7, 1)])), vec![7, 7, 7]);
    assert_eq!(layer_rle_files(&map, MapLayer::Tile, &set, &tlist), HashSet::from([10, 11, 12, 13]));
}

#[test]
fn readiness_of_references() {
    let r = rmd(vec![vec![image((0, 0, 4, 4), (0, 0), 0, 0, vec![0, 1])]], 0, vec![]);
    let l = list(&[(10, 0), (10, 1)]);
    let mut cache: SpriteCache<u32> = SpriteCache::new();
    assert!(sprites_ready(SpriteKind::Tile, 0, 0, None, &l, &cache));
    assert!(!sprites_ready(SpriteKind::Tile, 1, 0, None, &l, &cache));
    assert!(!sprites_ready(SpriteKind::Tile, 1, 0, Some(&r), &l, &cache));
    cached(&mut cache, SpriteKind::Tile, 10, 0, 4, 4);
    assert!(!sprites_ready(SpriteKind::Tile, 1, 0, Some(&r), &l, &cache));
    cached(&mut cache, SpriteKind::Object, 10, 1, 4, 4);
    assert!(!sprites_ready(SpriteKind::Tile, 1, 0, Some(&r), &l, &cache));
    cached(&mut cache, SpriteKind::Tile, 10, 1, 4, 4);
    assert!(sprites_ready(SpriteKind::Tile, 1, 0, Some(&r), &l, &cache));
    // an entry the data file lacks draws nothing
    assert!(sprites_ready(SpriteKind::Tile, 1, 7, Some(&r), &l, &cache));
}

fn sample_world() -> (GameMap, Rmd, Rmd, ListAsset, ListAsset) {
    let map = GameMap {
        name: String::from("sample"),
        size_x: 2,
        size_y: 2,
        tiles: vec![tile((1, 0), (2, 0)), tile((1, 1), (0, 0)), tile((0, 0), (2, 0)), tile((1, 0), (0, 0))],
    };
    let tle = rmd(
        vec![
            vec![image((0, 0, 48, 24), (0, 0), 0, 0, vec![0]), image((5, 5, 5, 9), (0, 0), 0, 0, vec![0])],
            vec![image((0, 0, 48, 24), (0, 0), 0, 0, vec![1])],
        ],
        0,
        vec![],
    );
    let obj = rmd(
        vec![vec![
            image((0, 0, 10, 10), (3, 4), 1, 2, vec![0]),
            image((-2, 0, 5, 5), (0, 0), 0, 0, vec![1]),
        ]],
        0,
        vec![],
    );
    (map, tle, obj, list(&[(20, 0), (20, 1)]), list(&[(30, 0), (30, 1)]))
}

#[test]
fn tile_draw_list_places_tiles_in_rows() {
    let (map, tle, _obj, tlist, _olist) = sample_world();
    let mut set = LoadedRmds::new();
    set.add(1, &tle);
    let mut cache: SpriteCache<u32> = SpriteCache::new();
    cached(&mut cache, SpriteKind::Tile, 20, 0, 48, 24);
    let v = tile_layer_draw_list(&map, &set, &tlist, &cache);
    // tiles 0 and 3 use entry 0 (one image with area whose sprite is cached);
    // tile 1 uses entry 1 whose sprite is not cached
    assert_eq!(v.len(), 2);
    assert_eq!((v[0].tile_x, v[0].tile_y), (0, 0));
    assert_eq!((v[1].tile_x, v[1].tile_y), (1, 1));
    assert_eq!(v[0].entry, Entry::new(20, 0));
    assert_eq!((v[0].src.x1, v[0].src.y1, v[0].src.x2, v[0].src.y2), (0, 0, 48, 24));
    assert!(v[0].frames.is_empty());
}

#[test]
fn animated_tiles_get_frames() {
    let map = GameMap { name: String::new(), size_x: 1, size_y: 1, tiles: vec![tile((1, 0), (0, 0))] };
    let tle = rmd(
        vec![
            vec![image((0, 0, 4, 4), (0, 0), 0, 0, vec![0])],
            vec![image((1, 1, 5, 5), (0, 0), 0, 0, vec![1])],
        ],
        1,
        vec![0, 1],
    );
    let tlist = list(&[(20, 0), (20, 1)]);
    let mut set = LoadedRmds::new();
    set.add(1, &tle);
    let mut cache: SpriteCache<u32> = SpriteCache::new();
    cached(&mut cache, SpriteKind::Tile, 20, 0, 4, 4);
    cached(&mut cache, SpriteKind::Tile, 20, 1, 4, 4);
    let v = tile_layer_draw_list(&map, &set, &tlist, &cache);
    assert_eq!(v.len(), 1);
    assert_eq!(v[0].frames.len(), 2);
    assert_eq!(v[0].frames[1].entry, Entry::new(20, 1));
    assert_eq!(v[0].frames[1].src.x1, 1);
}

#[test]
fn objects_are_clipped_placed_and_ordered() {
    let (map, _tle, obj, _tlist, olist) = sample_world();
    let mut set = LoadedRmds::new();
    set.add(2, &obj);
    let mut cache: SpriteCache<u32> = SpriteCache::new();
    cached(&mut cache, SpriteKind::Object, 30, 0, 8, 8);
    cached(&mut cache, SpriteKind::Object, 30, 1, 8, 8);
    let unsorted = object_layer_draw_list(&map, &set, &olist, &cache);
    // tiles 0 and 2 each draw both images
    assert_eq!(unsorted.len(), 4);
    let first = &unsorted[0];
    assert_eq!((first.tile_x, first.tile_y), (0, 0));
    assert_eq!((first.frame.clip.src.min_x, first.frame.clip.src.max_x), (0, 8));
    assert_eq!((first.frame.x, first.frame.y), (3, -4));
    assert!(first.shadowed);
    assert_eq!(first.z_key, 24 + 0 - 1);
    let second = &unsorted[1];
    assert_eq!((second.frame.clip.x_diff, second.frame.clip.src.min_x, second.frame.clip.src.max_x), (2, 0, 5));
    assert_eq!((second.frame.x, second.frame.y), (2, 0));
    assert!(!second.shadowed);
    assert_eq!(second.z_key, 24 + 1);
    let third = &unsorted[2];
    assert_eq!((third.tile_x, third.tile_y), (0, 1));
    assert_eq!((third.frame.x, third.frame.y), (3, -24 - 4));
    let sorted = sort_by_depth(unsorted);
    let keys: Vec<i128> = sorted.iter().map(|s| s.z_key).collect();
    assert_eq!(keys, vec![23, 25, 47, 49]);
}

#[test]
fn clipping_source_rectangles() {
    let c = clip_sprite_src(-3, 2, 10, 20, 1, 0, 8, 16).unwrap();
    assert_eq!((c.src.min_x, c.src.min_y, c.src.max_x, c.src.max_y), (0, 2, 8, 16));
    assert_eq!((c.x_diff, c.y_diff), (4, 0));
    assert!(clip_sprite_src(10, 0, 20, 5, 0, 0, 8, 8).is_none());
    assert!(clip_sprite_src(0, 0, 5, 0, 0, 0, 8, 8).is_none());
    assert!(clip_sprite_src(i32::MIN, 0, 1, 1, i32::MAX, 0, 8, 8).is_none());
    let far = clip_sprite_src(i32::MIN, 0, i32::MAX, 1, 0, 0, 8, 8).unwrap();
    assert_eq!(far.x_diff, -(i32::MIN as i64));
    assert_eq!((far.src.min_x, far.src.max_x), (0, 8));
}

#[test]
fn whole_map_spawn_flow() {
    let (map, tle, obj, tlist, olist) = sample_world();
    let mut state: SpawnState<u8, String> = SpawnState::new();
    state.begin(7, &map);
    assert_eq!(state.phase, Phase::WaitingForRmds);
    assert_eq!(state.map_id, Some(7));
    assert_eq!(state.tle_rmd_file_nums, HashSet::from([1]));
    assert_eq!(state.obj_rmd_file_nums, HashSet::from([2]));

    let empty = LoadedRmds::new();
    let mut tset = LoadedRmds::new();
    tset.add(1, &tle);
    assert!(state.rle_requests(&map, &tset, &empty, &tlist, &olist).is_none());
    assert_eq!(state.phase, Phase::WaitingForRmds);
    let mut oset = LoadedRmds::new();
    oset.add(2, &obj);
    let (t, o) = state.rle_requests(&map, &tset, &oset, &tlist, &olist).unwrap();
    assert_eq!(t, HashSet::from([20]));
    assert_eq!(o, HashSet::from([30]));
    assert_eq!(state.phase, Phase::WaitingForSprites);
    state.set_rle_handles(vec!["t20".to_string()], vec!["o30".to_string()]);

    let mut cache: SpriteCache<u32> = SpriteCache::new();
    for _ in 0..299 {
        assert!(state.try_spawn(&map, &tset, &oset, &tlist, &olist, &cache).is_none());
    }
    assert_eq!(state.frames_waiting, 299);
    cached(&mut cache, SpriteKind::Tile, 20, 0, 48, 24);
    cached(&mut cache, SpriteKind::Tile, 20, 1, 48, 24);
    cached(&mut cache, SpriteKind::Object, 30, 0, 8, 8);
    cached(&mut cache, SpriteKind::Object, 30, 1, 8, 8);
    assert!(all_sprites_ready(&map, &tset, &oset, &tlist, &olist, &cache));
    let plan = state.try_spawn(&map, &tset, &oset, &tlist, &olist, &cache).unwrap();
    assert_eq!(state.phase, Phase::Done);
    assert_eq!(state.frames_waiting, 299);
    assert_eq!(plan.tiles.len(), 3);
    assert_eq!(plan.objects.len(), 4);
    assert_eq!(plan.collision.blocked.len(), 8);
    assert!(plan.collision.is_blocked(0, 0, 0));
    assert!(!plan.collision.is_blocked(1, 1, 1));
    state.reset();
    assert_eq!(state.phase, Phase::Init);
    assert!(state.map_id.is_none());
}

#[test]
fn spawning_times_out_after_300_frames() {
    let (map, tle, obj, tlist, olist) = sample_world();
    let mut tset = LoadedRmds::new();
    tset.add(1, &tle);
    let mut oset = LoadedRmds::new();
    oset.add(2, &obj);
    let mut state: SpawnState<u8, String> = SpawnState::new();
    state.begin(0, &map);
    state.rle_requests(&map, &tset, &oset, &tlist, &olist).unwrap();
    let cache: SpriteCache<u32> = SpriteCache::new();
    let mut spawned_at = None;
    for frame in 1..=400u32 {
        if let Some(plan) = state.try_spawn(&map, &tset, &oset, &tlist, &olist, &cache) {
            assert!(plan.tiles.is_empty());
            spawned_at = Some(frame);
            break;
        }
    }
    assert_eq!(spawned_at, Some(300));
    assert_eq!(state.frames_waiting, 300);
}

#[test]
fn plan_of_a_map_without_data() {
    let map = GameMap { name: String::new(), size_x: 0, size_y: 0, tiles: vec![] };
    let set = LoadedRmds::new();
    let cache: SpriteCache<u32> = SpriteCache::new();
    let plan = plan_map_spawn(&map, &set, &set, &list(&[]), &list(&[]), &cache);
    assert!(plan.tiles.is_empty() && plan.objects.is_empty());
    assert!(plan.collision.blocked.is_empty());
    assert!(!plan.collision.is_blocked(0, 0, 0));
}

#[test]
fn tile_positions_wrap_rows() {
    let (mut x, mut y) = (0, 0);
    let mut seen = vec![];
    for _ in 0..5 {
        seen.push((x, y));
        next_tile(&mut x, &mut y, 2);
    }
    assert_eq!(seen, vec![(0, 0), (1, 0), (0, 1), (1, 1), (0, 2)]);
    let (mut x, mut y) = (0, 0);
    next_tile(&mut x, &mut y, 0);
    assert_eq!((x, y), (0, 1));
}

#[test]
fn map_stepping() {
    assert_eq!(prev_map(0), 0);
    assert_eq!(prev_map(5), 4);
    assert_eq!(next_map(5), 6);
    assert_eq!(next_map(MAX_MAP), MAX_MAP);
    assert_eq!(next_map(MAX_MAP + 10), MAX_MAP);
    for m in 1..=MAX_MAP {
        assert_eq!(next_map(prev_map(m)), m);
    }
    for m in 0..MAX_MAP {
        assert_eq!(prev_map(next_map(m)), m);
    }
    assert_eq!(map_cycle_input(true, true, 0), vec![0, 1]);
    assert_eq!(map_cycle_input(false, true, MAX_MAP), vec![MAX_MAP]);
    assert_eq!(map_cycle_input(false, false, 3), Vec::<usize>::new());
    assert_eq!(map_buttons(true, true, 0), vec![1]);
    assert_eq!(map_buttons(true, true, MAX_MAP), vec![MAX_MAP - 1]);
    assert_eq!(map_buttons(true, false, 3), vec![2]);
}

#[test]
fn changing_maps() {
    let mut index: MapIndex<String> = MapIndex::new();
    let mut state: SpawnState<u8, String> = SpawnState::new();
    state.phase = Phase::Done;
    state.frames_waiting = 17;
    let mut grid = CollisionGrid::new();
    grid.width = 1;
    grid.height = 1;
    grid.blocked = vec![true, true];
    let mut current = 1usize;
    assert!(change_map(&vec![], &mut index, &mut state, &mut grid, &mut current, |p| p).is_none());
    assert_eq!(current, 1);
    assert_eq!(state.phase, Phase::Done);
    let (n, h) = change_map(&vec![3, 9], &mut index, &mut state, &mut grid, &mut current, |p| p).unwrap();
    assert_eq!(n, 9);
    assert_eq!(h, "data/DATAs/Map/Map00009.rmm");
    assert_eq!(current, 9);
    assert_eq!(state.phase, Phase::Init);
    assert_eq!(state.frames_waiting, 0);
    assert!(grid.blocked.is_empty());
    assert_eq!((grid.width, grid.height), (0, 0));
    assert_eq!(index.handle(9), Some("data/DATAs/Map/Map00009.rmm".to_string()));
    assert_eq!(index.handle(3), None);
}

#[test]
fn animation_frames_loop() {
    assert_eq!(next_anim_frame(0, 3), 1);
    assert_eq!(next_anim_frame(2, 3), 0);
    assert_eq!(next_anim_frame(5, 1), 0);
    let mut i = 1;
    for _ in 0..4 {
        i = next_anim_frame(i, 4);
    }
    assert_eq!(i, 1);
}

#[test]
fn animation_entries_that_fit() {
    let still = rmd(vec![], 0, vec![]);
    assert!(anim_fits(&still, usize::MAX));
    let looping = rmd(vec![], 6, vec![0, 1]);
    assert!(anim_fits(&looping, 5));
    assert!(!anim_fits(&looping, usize::MAX - 5));
    assert!(anim_fits(&looping, usize::MAX - 6));
    let map = GameMap { name: String::new(), size_x: 1, size_y: 1, tiles: vec![tile((4, u32::MAX), (0, 0))] };
    let mut set = LoadedRmds::new();
    assert!(layer_anim_fits(&map, MapLayer::Tile, &set));
    set.add(4, &looping);
    assert!(layer_anim_fits(&map, MapLayer::Tile, &set));
    assert!(set.is_wf());
    let bad = LoadedRmds { files: vec![4, 4], rmds: vec![&looping, &still] };
    assert!(!bad.is_wf());
}

#[test]
fn cache_size_tracking() {
    let mut c: SpriteCache<u32> = SpriteCache::new();
    assert!(c.sizes_ok());
    cached(&mut c, SpriteKind::Tile, 1, 0, 4, 0);
    assert!(c.sizes_ok());
    c.insert(SpriteKind::Tile, Entry::new(1, 1), CachedSprite { handle: 0, x_off: 0, y_off: 0, width: -1, height: 2 });
    assert!(!c.sizes_ok());
}
