use std::cell::Cell;

use novluno::asset_loader::{RleAsset, RleSprite, SpriteKind};
use novluno::entity::Entry;
use novluno::resources::{data_key, sprite_key, CachedSprite, DataCache, MapIndex, SpriteCache};

#[test]
fn data_cache_reads_back_writes() {
    let mut c: DataCache<&str> = DataCache::new();
    assert!(c.get(SpriteKind::Tile, 3).is_none());
    c.insert(SpriteKind::Tile, 3, "tile-3");
    c.insert(SpriteKind::Object, 3, "obj-3");
    assert_eq!(c.get(SpriteKind::Tile, 3), Some(&"tile-3"));
    assert_eq!(c.get(SpriteKind::Object, 3), Some(&"obj-3"));
    assert!(c.get(SpriteKind::Tile, 4).is_none());
    c.insert(SpriteKind::Tile, 3, "tile-3b");
    assert_eq!(c.get(SpriteKind::Tile, 3), Some(&"tile-3b"));
    assert_eq!(c.get(SpriteKind::Object, 3), Some(&"obj-3"));
}

#[test]
fn keys_are_distinct() {
    assert_ne!(data_key(SpriteKind::Tile, 0), data_key(SpriteKind::Object, 0));
    assert_ne!(data_key(SpriteKind::Tile, 1), data_key(SpriteKind::Tile, 2));
    assert_eq!(data_key(SpriteKind::Icon, 7), (1u64 << 32) + 7);
    assert_ne!(
        sprite_key(SpriteKind::Tile, Entry::new(1, 2)),
        sprite_key(SpriteKind::Tile, Entry::new(2, 1))
    );
    assert_eq!(sprite_key(SpriteKind::Character, Entry::new(1, 2)), (2u128 << 64) + (1u128 << 32) + 2);
}

#[test]
fn map_index_loads_once() {
    let calls = Cell::new(0);
    let mut index: MapIndex<String> = MapIndex::new();
    let h = index
        .load_or_get(12, |p| {
            calls.set(calls.get() + 1);
            p
        })
        .clone();
    assert_eq!(h, "data/DATAs/Map/Map00012.rmm");
    let h2 = index
        .load_or_get(12, |p| {
            calls.set(calls.get() + 1);
            format!("{p}-again")
        })
        .clone();
    assert_eq!(h2, h);
    assert_eq!(calls.get(), 1);
    assert_eq!(index.handle(12), Some(h));
    assert_eq!(index.handle(13), None);
}

fn sprite(index: u32, width: i32, height: i32) -> RleSprite {
    RleSprite { index, width, height, x_off: index as i32, y_off: -(index as i32), image_raw: vec![] }
}

#[test]
fn sprite_cache_read_back() {
    let mut c: SpriteCache<u32> = SpriteCache::new();
    let e = Entry::new(4, 5);
    assert!(!c.contains(SpriteKind::Tile, &e));
    c.insert(SpriteKind::Tile, e, CachedSprite { handle: 9, x_off: 1, y_off: 2, width: 3, height: 4 });
    assert!(c.contains(SpriteKind::Tile, &e));
    assert!(!c.contains(SpriteKind::Object, &e));
    let got = c.get(SpriteKind::Tile, &e).unwrap();
    assert_eq!((got.handle, got.x_off, got.y_off, got.width, got.height), (9, 1, 2, 3, 4));
}

#[test]
fn populate_caches_new_sprites_with_images_only() {
    let mut c: SpriteCache<u32> = SpriteCache::new();
    c.insert(SpriteKind::Object, Entry::new(7, 1), CachedSprite { handle: 100, x_off: 0, y_off: 0, width: 1, height: 1 });
    let rle = RleAsset {
        file_num: 7,
        kind: SpriteKind::Object,
        sprites: vec![
            sprite(0, 0, 5),  // no image
            sprite(1, 2, 2),  // already cached
            sprite(2, 3, 4),  // new
            sprite(2, 8, 8),  // same index again: the first one stays
            sprite(0, 1, 1),  // index 0 now has an image
        ],
    };
    let made = Cell::new(0u32);
    c.populate(&rle, |s: &RleSprite| {
        made.set(made.get() + 1);
        (s.width * 10 + s.height) as u32
    });
    assert_eq!(made.get(), 2);
    assert_eq!(c.get(SpriteKind::Object, &Entry::new(7, 1)).unwrap().handle, 100);
    let s2 = c.get(SpriteKind::Object, &Entry::new(7, 2)).unwrap();
    assert_eq!((s2.handle, s2.width, s2.height, s2.x_off, s2.y_off), (34, 3, 4, 2, -2));
    let s0 = c.get(SpriteKind::Object, &Entry::new(7, 0)).unwrap();
    assert_eq!(s0.handle, 11);
    assert!(!c.contains(SpriteKind::Tile, &Entry::new(7, 2)));
}
