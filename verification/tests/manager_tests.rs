use novluno::asset_loader::{RleResource, SpriteKind};
use novluno::character::Player as ClassicPlayer;
use novluno::config::{Config, ListType};
use novluno::entity::{Entry, GameMap, ListAsset, ListItem, MapTile, Rmd, RmdEntry, RmdImage};
use novluno::game::{entry_ids_in_list, load_map, map_ids_in_lists, map_sprite_requests};
use novluno::map_spawn::LoadedRmds;
use novluno::paths::MapLayer;
use novluno::sprite_manager::{load_map_sprites, sprite_from_resource, texture_pitch, SpriteLoadError, SpriteManager};

#[test]
fn default_configuration() {
    let c = Config::default();
    assert_eq!(c.data_dir, "../Data/DATAs");
    assert_eq!(c.rle_dir, "../Data/RELs");
    let names: Vec<(&str, ListType)> = c.list_paths.iter().map(|(p, t)| (p.as_str(), *t)).collect();
    assert_eq!(
        names,
        vec![
            ("bul.lst", ListType::Bullet),
            ("ico.lst", ListType::Icon),
            ("int.lst", ListType::Interface),
            ("tle.lst", ListType::Tile),
            ("obj.lst", ListType::Object),
        ]
    );
}

#[test]
fn classic_player_record() {
    let p = ClassicPlayer::new();
    assert_eq!((p.position, p.kind, p.list_id), ((100, 100), 0, 0));
}

#[test]
fn sprites_from_resources() {
    let r = RleResource { index: 7, width: 3, height: 2, offset_x: -1, offset_y: 4, image_raw: vec![1, 2, 3] };
    let s = sprite_from_resource(12, SpriteKind::Icon, r);
    assert_eq!(s.class, SpriteKind::Icon);
    assert_eq!(s.rle_entry, Entry::new(12, 7));
    assert_eq!((s.x_dim, s.y_dim, s.x_off, s.y_off), (3, 2, -1, 4));
    assert_eq!(s.image_raw, vec![1, 2, 3]);
    assert_eq!(texture_pitch(0), 0);
    assert_eq!(texture_pitch(37), 148);
}

#[test]
fn sprite_store_loads_a_file_once() {
    let mut m: SpriteManager<&str> = SpriteManager::new("data/RLEs");
    assert_eq!(m.db_path(), "data/RLEs");
    assert_eq!(m.get_count(), 0);
    assert!(m.req_sprite(&Entry::new(3, 1), SpriteKind::Tile).is_none());

    let mut calls = 0;
    let got = m.get_sprite_entry(&Entry::new(3, 1), SpriteKind::Tile, |file, kind| {
        calls += 1;
        assert_eq!((file, kind), (3, SpriteKind::Tile));
        (vec![(0, "a"), (1, "b"), (1, "c")], None::<String>)
    });
    match got {
        Ok(v) => assert_eq!(*v, "c"),
        Err(_) => panic!("expected the sprite"),
    }
    assert_eq!(calls, 1);
    assert_eq!(m.get_count(), 2);
    assert_eq!(m.req_sprite(&Entry::new(3, 0), SpriteKind::Tile), Some(&"a"));
    assert!(m.req_sprite(&Entry::new(3, 0), SpriteKind::Object).is_none());

    // already loaded: the loader is not called
    match m.get_sprite_entry(&Entry::new(3, 0), SpriteKind::Tile, |_, _| -> (Vec<(u32, &str)>, Option<String>) {
        panic!("must not load again")
    }) {
        Ok(v) => assert_eq!(*v, "a"),
        Err(_) => panic!("expected the sprite"),
    }

    // the file lacks the sprite
    match m.get_sprite_entry(&Entry::new(4, 9), SpriteKind::Object, |_, _| (vec![(0, "x")], None::<String>)) {
        Err(SpriteLoadError::SpriteLoad) => {}
        _ => panic!("expected a missing sprite"),
    }
    assert_eq!(m.req_sprite(&Entry::new(4, 0), SpriteKind::Object), Some(&"x"));

    // loading stopped with an error: what was read is kept
    match m.get_sprite_entry(&Entry::new(5, 1), SpriteKind::Character, |_, _| (vec![(0, "y")], Some("bad file".to_string()))) {
        Err(SpriteLoadError::Load(e)) => assert_eq!(e, "bad file"),
        _ => panic!("expected the load error"),
    }
    assert_eq!(m.req_sprite(&Entry::new(5, 0), SpriteKind::Character), Some(&"y"));
    assert_eq!(m.get_count(), 4);

    m.insert_sprite(Entry::new(5, 0), SpriteKind::Character, "z");
    m.record_file(SpriteKind::Bullet, 1, vec![(2, "p"), (3, "q")]);
    assert_eq!(m.req_sprite(&Entry::new(5, 0), SpriteKind::Character), Some(&"z"));
    assert_eq!(m.req_sprite(&Entry::new(1, 3), SpriteKind::Bullet), Some(&"q"));
    assert_eq!(m.get_count(), 6);
}

fn image(ids: Vec<u32>) -> RmdImage {
    RmdImage {
        source_x1: 0,
        source_y1: 0,
        source_x2: 1,
        source_y2: 1,
        dest_x: 0,
        dest_y: 0,
        render_z: 0,
        empty_2: 0,
        draw_type: 0,
        image_id: ids,
    }
}

fn rmd(entries: Vec<Vec<RmdImage>>) -> Rmd {
    Rmd {
        animation_count: 0,
        animation_entry_count: 0,
        entries: entries.into_iter().map(|images| RmdEntry { images }).collect(),
        animations: vec![],
    }
}

fn list(entries: &[(u32, u32)]) -> ListAsset {
    ListAsset { items: entries.iter().map(|&(f, i)| ListItem { entry: Entry::new(f, i) }).collect() }
}

fn tile(tle: (u32, u32), obj: (u32, u32)) -> MapTile {
    MapTile { tle_rmd_entry: Entry::new(tle.0, tle.1), obj_rmd_entry: Entry::new(obj.0, obj.1), collision: 0, warp: 0 }
}

#[test]
fn sprites_a_map_needs() {
    let map = GameMap {
        name: "test".to_string(),
        size_x: 2,
        size_y: 2,
        tiles: vec![
            tile((1, 0), (2, 1)),
            tile((1, 5), (0, 0)),
            tile((1, 1), (9, 0)),
            tile((0, 0), (2, 0)),
        ],
    };
    let obj = rmd(vec![vec![image(vec![1])], vec![image(vec![0, 1]), image(vec![])]]);
    let tle = rmd(vec![vec![image(vec![2])], vec![image(vec![0])]]);
    let mut objs = LoadedRmds::new();
    objs.add(2, &obj);
    let mut tles = LoadedRmds::new();
    tles.add(1, &tle);
    let obj_list = list(&[(40, 0), (41, 1)]);
    let tle_list = list(&[(50, 0), (51, 1), (52, 2)]);
    assert!(map_ids_in_lists(&map, &objs, &tles, &obj_list, &tle_list));
    assert!(!map_ids_in_lists(&map, &objs, &tles, &obj_list, &list(&[(50, 0)])));
    assert!(entry_ids_in_list(&obj, &obj_list, 1));
    assert!(!entry_ids_in_list(&obj, &list(&[(40, 0)]), 1));
    assert!(entry_ids_in_list(&obj, &list(&[]), 7));
    let plan = map_sprite_requests(&map, &objs, &tles, &obj_list, &tle_list);
    assert_eq!(
        plan.requests,
        vec![
            // tile 0: object entry 1, then tile entry 0
            (Entry::new(40, 0), SpriteKind::Object),
            (Entry::new(41, 1), SpriteKind::Object),
            (Entry::new(52, 2), SpriteKind::Tile),
            // tile 2: the object file 9 is not loaded, so its tile part is skipped
            // tile 3: object entry 0
            (Entry::new(41, 1), SpriteKind::Object),
        ]
    );
    // tile 1 names entry 5 of tile file 1, which has two
    assert_eq!(plan.missing_entries, vec![(MapLayer::Tile, 1, 5)]);

    let mut store: SpriteManager<u32> = SpriteManager::new("data/RLEs");
    let (res, missing) = load_map(&map, &objs, &tles, &obj_list, &tle_list, &mut store, |file: u32, _k: SpriteKind| {
        (vec![(0, file * 10), (1, file * 10 + 1), (2, file * 10 + 2)], None::<String>)
    });
    assert!(res.is_ok());
    assert_eq!(missing, vec![(MapLayer::Tile, 1, 5)]);
    assert_eq!(store.req_sprite(&Entry::new(52, 2), SpriteKind::Tile), Some(&522));
    assert_eq!(store.req_sprite(&Entry::new(41, 1), SpriteKind::Object), Some(&411));
    let mut empty: SpriteManager<u32> = SpriteManager::new("data/RLEs");
    let (res, _) = load_map(&map, &objs, &tles, &obj_list, &tle_list, &mut empty, |_f: u32, _k: SpriteKind| {
        (vec![], Some("unreadable".to_string()))
    });
    match res {
        Err(SpriteLoadError::Load(e)) => assert_eq!(e, "unreadable"),
        _ => panic!("expected the load error"),
    }
}

#[test]
fn fetching_the_sprites_of_a_map() {
    let mut m: SpriteManager<u32> = SpriteManager::new("data/RLEs");
    let loads = std::cell::Cell::new(0);
    let loader = |file: u32, _kind: SpriteKind| -> (Vec<(u32, u32)>, Option<String>) {
        loads.set(loads.get() + 1);
        match file {
            1 => (vec![(0, 10), (1, 11)], None),
            2 => (vec![(0, 20)], None),
            _ => (vec![], Some(format!("no file {file}"))),
        }
    };
    let ok = vec![(Entry::new(1, 0), SpriteKind::Tile), (Entry::new(1, 1), SpriteKind::Tile), (Entry::new(2, 0), SpriteKind::Object)];
    assert!(load_map_sprites(&mut m, &ok, &loader).is_ok());
    assert_eq!(loads.get(), 2);
    assert_eq!(m.req_sprite(&Entry::new(2, 0), SpriteKind::Object), Some(&20));

    // the first failure stops the fetch
    let missing = vec![(Entry::new(2, 5), SpriteKind::Tile), (Entry::new(3, 0), SpriteKind::Tile)];
    match load_map_sprites(&mut m, &missing, &loader) {
        Err(SpriteLoadError::SpriteLoad) => {}
        _ => panic!("expected a missing sprite"),
    }
    assert_eq!(loads.get(), 3);
    let broken = vec![(Entry::new(3, 0), SpriteKind::Tile), (Entry::new(1, 0), SpriteKind::Icon)];
    match load_map_sprites(&mut m, &broken, &loader) {
        Err(SpriteLoadError::Load(e)) => assert_eq!(e, "no file 3"),
        _ => panic!("expected the load error"),
    }
    assert_eq!(loads.get(), 4);
    assert!(m.req_sprite(&Entry::new(1, 0), SpriteKind::Icon).is_none());
}

#[test]
fn fetching_sprites_already_loaded_calls_no_loader() {
    let mut m: SpriteManager<u32> = SpriteManager::new("data/RLEs");
    let loads = std::cell::Cell::new(0);
    let loader = |file: u32, _kind: SpriteKind| -> (Vec<(u32, u32)>, Option<String>) {
        loads.set(loads.get() + 1);
        match file {
            1 => (vec![(0, 10), (1, 11)], None),
            _ => (vec![], Some(format!("no file {file}"))),
        }
    };
    let reqs = vec![(Entry::new(1, 0), SpriteKind::Tile), (Entry::new(1, 1), SpriteKind::Tile)];
    assert!(load_map_sprites(&mut m, &reqs, &loader).is_ok());
    assert_eq!(loads.get(), 1);
    // every request is now loaded: the loader is not called again
    assert!(load_map_sprites(&mut m, &reqs, &loader).is_ok());
    assert_eq!(loads.get(), 1);
    // no requests at all: Ok
    assert!(load_map_sprites(&mut m, &Vec::new(), &loader).is_ok());
    assert_eq!(loads.get(), 1);
}
