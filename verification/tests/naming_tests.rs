use novluno::asset_loader::{
    file_num_from_path, rle_asset_from_resources, rle_has_image, rmd_type_from_path,
    sprite_kind_from_path, ListAssetLoader, MapAssetLoader, RleAssetLoader, RleResource,
    RleSprite, RmdAssetLoader, SpriteKind,
};
use novluno::entity::RmdType;
use novluno::paths::{
    char_asset_loads, chr_list_path, chr_rle_path, chr_rmd_path, layer_rle_path, layer_rmd_path, map_asset_path,
    map_number_from_file_name, sprite_file_name, sprite_folder, MapLayer,
};
use novluno::text::{append_zero_padded, parse_unsigned, str_equals};

#[test]
fn map_paths_are_zero_padded() {
    assert_eq!(map_asset_path(1), "data/DATAs/Map/Map00001.rmm");
    assert_eq!(map_asset_path(234), "data/DATAs/Map/Map00234.rmm");
    assert_eq!(map_asset_path(123456), "data/DATAs/Map/Map123456.rmm");
}

#[test]
fn layer_paths() {
    assert_eq!(layer_rmd_path(MapLayer::Tile, 7), "data/DATAs/Tle/tle00007.rmd");
    assert_eq!(layer_rmd_path(MapLayer::Object, 12), "data/DATAs/Obj/obj00012.rmd");
    assert_eq!(layer_rle_path(MapLayer::Tile, 0), "data/RLEs/Tle/tle00000.rle");
    assert_eq!(layer_rle_path(MapLayer::Object, 99999), "data/RLEs/Obj/obj99999.rle");
}

#[test]
fn character_paths() {
    assert_eq!(chr_rmd_path(0), "data/DATAs/Chr/chr00000.rmd");
    assert_eq!(chr_list_path(3), "data/RLEs/Chr/c03.lst");
    assert_eq!(chr_list_path(123), "data/RLEs/Chr/c123.lst");
    assert_eq!(chr_rle_path(1, 42), "data/RLEs/Chr/C01/c0100042.rle");
}

#[test]
fn sprite_manager_file_names() {
    assert_eq!(sprite_folder(SpriteKind::Bullet), "Bul");
    assert_eq!(sprite_folder(SpriteKind::Interface), "Int");
    assert_eq!(sprite_file_name(SpriteKind::Tile, 12), "tle00012.rle");
    assert_eq!(sprite_file_name(SpriteKind::Character, 5), "chr00005.rle");
    assert_eq!(sprite_file_name(SpriteKind::Icon, 0), "ico00000.rle");
}

#[test]
fn zero_padding_widths() {
    let mut s = String::from("x");
    append_zero_padded(&mut s, 0, 3);
    assert_eq!(s, "x000");
    let mut s = String::new();
    append_zero_padded(&mut s, u64::MAX, 2);
    assert_eq!(s, u64::MAX.to_string());
    let mut s = String::new();
    append_zero_padded(&mut s, 5, 0);
    assert_eq!(s, "5");
}

#[test]
fn file_numbers_from_stems() {
    assert_eq!(file_num_from_path(Some("tle00001")), 1);
    assert_eq!(file_num_from_path(Some("obj12345")), 12345);
    assert_eq!(file_num_from_path(Some("00042")), 42);
    assert_eq!(file_num_from_path(Some("tle+7")), 7);
    assert_eq!(file_num_from_path(None), 0);
    assert_eq!(file_num_from_path(Some("tle")), 0);
    assert_eq!(file_num_from_path(Some("tle12a")), 0);
    assert_eq!(file_num_from_path(Some("tle4294967295")), u32::MAX);
    assert_eq!(file_num_from_path(Some("tle4294967296")), 0);
    // Unicode letters are skipped too.
    assert_eq!(file_num_from_path(Some("데이터9")), 9);
}

#[test]
fn unsigned_parsing_follows_std() {
    for s in ["0", "17", "+17", "", "+", "-1", "12x", "4294967295", "4294967296", " 1"] {
        let n = s.chars().count();
        let got = parse_unsigned(s, 0, n, u32::MAX as u64);
        let want = s.parse::<u32>().ok().map(|v| v as u64);
        assert_eq!(got, want, "{s:?}");
    }
    assert_eq!(parse_unsigned("ab123cd", 2, 5, 1000), Some(123));
    assert_eq!(parse_unsigned("ab123cd", 2, 5, 100), None);
}

#[test]
fn string_equality() {
    assert!(str_equals("Tle", "Tle"));
    assert!(!str_equals("Tle", "tle"));
    assert!(!str_equals("Tle", "Tl"));
    assert!(str_equals("", ""));
}

#[test]
fn map_file_numbers() {
    assert_eq!(map_number_from_file_name("Map00012.rmm"), Some(12));
    assert_eq!(map_number_from_file_name("Map01230.rmm"), Some(1230));
    assert_eq!(map_number_from_file_name("Map00234.rmm"), Some(234));
    assert_eq!(map_number_from_file_name("Map00001.r"), Some(1));
    assert_eq!(map_number_from_file_name("Map12.rmm"), None);
    assert_eq!(map_number_from_file_name("map00012.rmm"), None);
    assert_eq!(map_number_from_file_name("Tle00012.rmm"), None);
}

#[test]
fn sprite_kinds_from_folders() {
    assert_eq!(sprite_kind_from_path(&vec!["data", "RLEs", "Chr", "c00.rle"]), SpriteKind::Character);
    assert_eq!(sprite_kind_from_path(&vec!["Bul", "Obj"]), SpriteKind::Bullet);
    assert_eq!(sprite_kind_from_path(&vec!["data", "Int", "x.rle"]), SpriteKind::Interface);
    assert_eq!(sprite_kind_from_path(&vec!["data", "", "x.rle"]), SpriteKind::Tile);
    assert_eq!(sprite_kind_from_path(&vec![]), SpriteKind::Tile);
    assert_eq!(sprite_kind_from_path(&vec!["obj"]), SpriteKind::Tile);
}

#[test]
fn rmd_types_from_folders() {
    assert_eq!(rmd_type_from_path(&vec!["data", "DATAs", "Obj", "obj00001.rmd"]), RmdType::Object);
    assert_eq!(rmd_type_from_path(&vec!["Ico"]), RmdType::Icon);
    assert_eq!(rmd_type_from_path(&vec!["Int", "Chr"]), RmdType::Character);
    assert_eq!(rmd_type_from_path(&vec!["Int"]), RmdType::Tile);
}

#[test]
fn loader_extensions() {
    assert_eq!(ListAssetLoader.extensions(), &["lst"]);
    assert_eq!(MapAssetLoader.extensions(), &["rmm"]);
    assert_eq!(RleAssetLoader.extensions(), &["rle"]);
    assert_eq!(RmdAssetLoader.extensions(), &["rmd"]);
}

#[test]
fn sprites_of_a_parsed_file() {
    let resources = vec![
        RleResource { index: 3, width: 2, height: 1, offset_x: -1, offset_y: 4, image_raw: vec![1, 2, 3, 4, 5, 6, 7, 8] },
        RleResource { index: 0, width: 0, height: 5, offset_x: 0, offset_y: 0, image_raw: vec![] },
    ];
    let asset = rle_asset_from_resources(9, SpriteKind::Object, resources);
    assert_eq!(asset.file_num, 9);
    assert_eq!(asset.kind, SpriteKind::Object);
    assert_eq!(asset.sprites.len(), 2);
    assert_eq!(asset.sprites[0].index, 3);
    assert_eq!(asset.sprites[0].x_off, -1);
    assert_eq!(asset.sprites[0].y_off, 4);
    assert_eq!(asset.sprites[0].image_raw, vec![1, 2, 3, 4, 5, 6, 7, 8]);
    assert!(rle_has_image(&asset.sprites[0]));
    assert!(!rle_has_image(&asset.sprites[1]));
    let negative = RleSprite { index: 0, width: 3, height: -1, x_off: 0, y_off: 0, image_raw: vec![] };
    assert!(!rle_has_image(&negative));
}

#[test]
fn character_assets_loaded_once() {
    assert_eq!(
        char_asset_loads(4, false, false),
        (Some("data/DATAs/Chr/chr00004.rmd".to_string()), Some("data/RLEs/Chr/c04.lst".to_string()))
    );
    assert_eq!(char_asset_loads(4, true, false), (None, Some("data/RLEs/Chr/c04.lst".to_string())));
    assert_eq!(char_asset_loads(4, false, true), (Some("data/DATAs/Chr/chr00004.rmd".to_string()), None));
    assert_eq!(char_asset_loads(4, true, true), (None, None));
}
