//! What the asset loaders decide: the file extensions they claim, the kind of
//! a sprite or data file from the folders of its path, the file number from
//! its name, and the sprites of a parsed `.rle` file.
use vstd::prelude::*;
use crate::entity::RmdType;
use crate::paths::sprite_folder_spec;
use crate::text::{file_num_from_stem, file_num_spec, str_equals};

verus! {

/// The kind of a sprite file, named by the folder that holds it.
#[derive(Clone, Copy, Debug, PartialEq, Eq, Structural, Hash)]
pub enum SpriteKind {
    Bullet,
    Icon,
    Character,
    Object,
    Tile,
    Interface,
}

/// One sprite of an `.rle` file: its index in the file, size, drawing
/// offset and decoded RGBA pixels.
#[derive(Debug)]
pub struct RleSprite {
    pub index: u32,
    pub width: i32,
    pub height: i32,
    pub x_off: i32,
    pub y_off: i32,
    pub image_raw: Vec<u8>,
}

/// A loaded sprite file.
#[derive(Debug)]
pub struct RleAsset {
    pub file_num: u32,
    pub kind: SpriteKind,
    pub sprites: Vec<RleSprite>,
}

/// One resource as the `.rle` parser hands it out.
#[derive(Debug)]
pub struct RleResource {
    pub index: u32,
    pub width: i32,
    pub height: i32,
    pub offset_x: i32,
    pub offset_y: i32,
    pub image_raw: Vec<u8>,
}

/// Loader of list files.
#[derive(Debug, Default)]
pub struct ListAssetLoader;

/// Loader of map files.
#[derive(Debug, Default)]
pub struct MapAssetLoader;

/// Loader of sprite files.
#[derive(Debug, Default)]
pub struct RleAssetLoader;

/// Loader of data files.
#[derive(Debug, Default)]
pub struct RmdAssetLoader;

impl ListAssetLoader {
    /// The file extensions this loader claims: just `lst`.
    pub fn extensions(&self) -> (e: &'static [&'static str])
        ensures
            e@.len() == 1,
            e@[0]@ == "lst"@,
    {
        let e: &'static [&'static str] = &["lst"];
        proof {
            reveal_strlit("lst");
        }
        e
    }
}

impl MapAssetLoader {
    /// The file extensions this loader claims: just `rmm`.
    pub fn extensions(&self) -> (e: &'static [&'static str])
        ensures
            e@.len() == 1,
            e@[0]@ == "rmm"@,
    {
        let e: &'static [&'static str] = &["rmm"];
        proof {
            reveal_strlit("rmm");
        }
        e
    }
}

impl RleAssetLoader {
    /// The file extensions this loader claims: just `rle`.
    pub fn extensions(&self) -> (e: &'static [&'static str])
        ensures
            e@.len() == 1,
            e@[0]@ == "rle"@,
    {
        let e: &'static [&'static str] = &["rle"];
        proof {
            reveal_strlit("rle");
        }
        e
    }
}

impl RmdAssetLoader {
    /// The file extensions this loader claims: just `rmd`.
    pub fn extensions(&self) -> (e: &'static [&'static str])
        ensures
            e@.len() == 1,
            e@[0]@ == "rmd"@,
    {
        let e: &'static [&'static str] = &["rmd"];
        proof {
            reveal_strlit("rmd");
        }
        e
    }
}

/// The sprite kind a folder name stands for.
pub open spec fn sprite_kind_of_folder(name: Seq<char>) -> Option<SpriteKind> {
    if name == "Bul"@ {
        Some(SpriteKind::Bullet)
    } else if name == "Ico"@ {
        Some(SpriteKind::Icon)
    } else if name == "Chr"@ {
        Some(SpriteKind::Character)
    } else if name == "Obj"@ {
        Some(SpriteKind::Object)
    } else if name == "Tle"@ {
        Some(SpriteKind::Tile)
    } else if name == "Int"@ {
        Some(SpriteKind::Interface)
    } else {
        None
    }
}

/// The kind given by the first path component that names a sprite folder;
/// `Tile` when none does.
pub open spec fn sprite_kind_spec(components: Seq<Seq<char>>) -> SpriteKind
    decreases components.len(),
{
    if components.len() == 0 {
        SpriteKind::Tile
    } else {
        match sprite_kind_of_folder(components[0]) {
            Some(k) => k,
            None => sprite_kind_spec(components.drop_first()),
        }
    }
}

/// The data-file type a folder name stands for.
pub open spec fn rmd_type_of_folder(name: Seq<char>) -> Option<RmdType> {
    if name == "Bul"@ {
        Some(RmdType::Bullet)
    } else if name == "Ico"@ {
        Some(RmdType::Icon)
    } else if name == "Chr"@ {
        Some(RmdType::Character)
    } else if name == "Obj"@ {
        Some(RmdType::Object)
    } else if name == "Tle"@ {
        Some(RmdType::Tile)
    } else {
        None
    }
}

/// The type given by the first path component that names a data folder;
/// `Tile` when none does.
pub open spec fn rmd_type_spec(components: Seq<Seq<char>>) -> RmdType
    decreases components.len(),
{
    if components.len() == 0 {
        RmdType::Tile
    } else {
        match rmd_type_of_folder(components[0]) {
            Some(k) => k,
            None => rmd_type_spec(components.drop_first()),
        }
    }
}

/// The six folder names differ from one another.
proof fn lemma_folder_names_distinct()
    ensures
        "Ico"@ != "Bul"@,
        "Chr"@ != "Bul"@ && "Chr"@ != "Ico"@,
        "Obj"@ != "Bul"@ && "Obj"@ != "Ico"@ && "Obj"@ != "Chr"@,
        "Tle"@ != "Bul"@ && "Tle"@ != "Ico"@ && "Tle"@ != "Chr"@ && "Tle"@ != "Obj"@,
        "Int"@ != "Bul"@ && "Int"@ != "Ico"@ && "Int"@ != "Chr"@ && "Int"@ != "Obj"@ && "Int"@
            != "Tle"@,
{
    reveal_strlit("Bul");
    reveal_strlit("Ico");
    reveal_strlit("Chr");
    reveal_strlit("Obj");
    reveal_strlit("Tle");
    reveal_strlit("Int");
    assert("Ico"@[0] != "Bul"@[0]);
    assert("Chr"@[0] != "Bul"@[0] && "Chr"@[0] != "Ico"@[0]);
    assert("Obj"@[0] != "Bul"@[0] && "Obj"@[0] != "Ico"@[0] && "Obj"@[0] != "Chr"@[0]);
    assert("Tle"@[0] != "Bul"@[0] && "Tle"@[0] != "Ico"@[0] && "Tle"@[0] != "Chr"@[0]
        && "Tle"@[0] != "Obj"@[0]);
    assert("Int"@[0] != "Bul"@[0] && "Int"@[1] != "Ico"@[1] && "Int"@[0] != "Chr"@[0]
        && "Int"@[0] != "Obj"@[0] && "Int"@[0] != "Tle"@[0]);
}

/// The folder names and the sprite kinds match one to one: the folder of a
/// kind names that kind, and a folder name that names a kind is that kind's
/// folder.
pub proof fn lemma_sprite_folder_names_kind(k: SpriteKind, name: Seq<char>)
    ensures
        sprite_kind_of_folder(sprite_folder_spec(k)) == Some(k),
        sprite_kind_of_folder(name) == Some(k) ==> name == sprite_folder_spec(k),
{
    lemma_folder_names_distinct();
}

/// A data-file folder names the data-file type of the sprite kind of the
/// same folder: `Bul`, `Ico`, `Chr`, `Obj` and `Tle` give bullet, icon,
/// character, object and tile data files; `Int` holds no data files.
pub proof fn lemma_data_folder_names_type()
    ensures
        rmd_type_of_folder(sprite_folder_spec(SpriteKind::Bullet)) == Some(RmdType::Bullet),
        rmd_type_of_folder(sprite_folder_spec(SpriteKind::Icon)) == Some(RmdType::Icon),
        rmd_type_of_folder(sprite_folder_spec(SpriteKind::Character)) == Some(RmdType::Character),
        rmd_type_of_folder(sprite_folder_spec(SpriteKind::Object)) == Some(RmdType::Object),
        rmd_type_of_folder(sprite_folder_spec(SpriteKind::Tile)) == Some(RmdType::Tile),
        rmd_type_of_folder(sprite_folder_spec(SpriteKind::Interface)) is None,
{
    lemma_folder_names_distinct();
}

/// A path whose first sprite folder is the folder of kind `k` holds a sprite
/// of kind `k`, whatever comes after that folder.
pub proof fn lemma_sprite_kind_of_path(pre: Seq<Seq<char>>, k: SpriteKind, rest: Seq<Seq<char>>)
    requires
        forall|i: int| 0 <= i < pre.len() ==> sprite_kind_of_folder(#[trigger] pre[i]) is None,
    ensures
        sprite_kind_spec(pre + seq![sprite_folder_spec(k)] + rest) == k,
    decreases pre.len(),
{
    lemma_sprite_folder_names_kind(k, sprite_folder_spec(k));
    let p = pre + seq![sprite_folder_spec(k)] + rest;
    if pre.len() == 0 {
        assert(p[0] == sprite_folder_spec(k));
    } else {
        assert(p[0] == pre[0]);
        let pre2 = pre.drop_first();
        assert forall|i: int| 0 <= i < pre2.len() implies sprite_kind_of_folder(#[trigger] pre2[i]) is None by {
            assert(pre2[i] == pre[i + 1]);
        }
        assert(p.drop_first() =~= pre2 + seq![sprite_folder_spec(k)] + rest);
        lemma_sprite_kind_of_path(pre2, k, rest);
    }
}

pub open spec fn component_views(components: Seq<&str>) -> Seq<Seq<char>> {
    components.map_values(|c: &str| c@)
}

fn sprite_kind_of_name(name: &str) -> (k: Option<SpriteKind>)
    ensures
        k == sprite_kind_of_folder(name@),
{
    if str_equals(name, "Bul") {
        Some(SpriteKind::Bullet)
    } else if str_equals(name, "Ico") {
        Some(SpriteKind::Icon)
    } else if str_equals(name, "Chr") {
        Some(SpriteKind::Character)
    } else if str_equals(name, "Obj") {
        Some(SpriteKind::Object)
    } else if str_equals(name, "Tle") {
        Some(SpriteKind::Tile)
    } else if str_equals(name, "Int") {
        Some(SpriteKind::Interface)
    } else {
        None
    }
}

fn rmd_type_of_name(name: &str) -> (k: Option<RmdType>)
    ensures
        k == rmd_type_of_folder(name@),
{
    if str_equals(name, "Bul") {
        Some(RmdType::Bullet)
    } else if str_equals(name, "Ico") {
        Some(RmdType::Icon)
    } else if str_equals(name, "Chr") {
        Some(RmdType::Character)
    } else if str_equals(name, "Obj") {
        Some(RmdType::Object)
    } else if str_equals(name, "Tle") {
        Some(RmdType::Tile)
    } else {
        None
    }
}

/// The sprite kind of a file from the components of its path (a component
/// that is not valid text is given as `""`): the first of the folders `Bul`,
/// `Ico`, `Chr`, `Obj`, `Tle`, `Int` decides; `Tile` when none occurs.
pub fn sprite_kind_from_path(components: &Vec<&str>) -> (k: SpriteKind)
    ensures
        k == sprite_kind_spec(component_views(components@)),
{
    let ghost all = component_views(components@);
    let mut i: usize = 0;
    assert(all.skip(0) =~= all);
    while i < components.len()
        invariant
            i <= components@.len(),
            all == component_views(components@),
            sprite_kind_spec(all) == sprite_kind_spec(all.skip(i as int)),
        decreases components.len() - i,
    {
        let c: &str = components[i];
        assert(all.skip(i as int)[0] == c@);
        assert(all.skip(i as int).drop_first() =~= all.skip(i + 1));
        match sprite_kind_of_name(c) {
            Some(k) => {
                return k;
            },
            None => {},
        }
        i = i + 1;
    }
    assert(all.skip(i as int).len() == 0);
    SpriteKind::Tile
}

/// The data-file type from the components of its path: the first of the
/// folders `Bul`, `Ico`, `Chr`, `Obj`, `Tle` decides; `Tile` when none occurs.
pub fn rmd_type_from_path(components: &Vec<&str>) -> (k: RmdType)
    ensures
        k == rmd_type_spec(component_views(components@)),
{
    let ghost all = component_views(components@);
    let mut i: usize = 0;
    assert(all.skip(0) =~= all);
    while i < components.len()
        invariant
            i <= components@.len(),
            all == component_views(components@),
            rmd_type_spec(all) == rmd_type_spec(all.skip(i as int)),
        decreases components.len() - i,
    {
        let c: &str = components[i];
        assert(all.skip(i as int)[0] == c@);
        assert(all.skip(i as int).drop_first() =~= all.skip(i + 1));
        match rmd_type_of_name(c) {
            Some(k) => {
                return k;
            },
            None => {},
        }
        i = i + 1;
    }
    assert(all.skip(i as int).len() == 0);
    RmdType::Tile
}

/// The file number of a sprite file from its file stem (`"tle00001"` gives
/// 1; a missing stem or one that does not end in a number gives 0).
pub fn file_num_from_path(stem: Option<&str>) -> (n: u32)
    ensures
        n == file_num_spec(
            match stem {
                Some(s) => Some(s@),
                None => None,
            },
        ),
{
    file_num_from_stem(stem)
}

/// Whether a sprite has an image: only sprites of positive width and height
/// are turned into images.
pub fn rle_has_image(sprite: &RleSprite) -> (b: bool)
    ensures
        b == (sprite.width > 0 && sprite.height > 0),
{
    sprite.width > 0 && sprite.height > 0
}

/// The sprite of one parsed resource.
pub open spec fn sprite_of_resource(r: RleResource) -> (int, int, int, int, int, Seq<u8>) {
    (r.index as int, r.width as int, r.height as int, r.offset_x as int, r.offset_y as int, r.image_raw@)
}

pub open spec fn sprite_fields(s: RleSprite) -> (int, int, int, int, int, Seq<u8>) {
    (s.index as int, s.width as int, s.height as int, s.x_off as int, s.y_off as int, s.image_raw@)
}

/// The asset of a parsed sprite file: one sprite per resource, in order,
/// with the file number and kind it was loaded under.
pub fn rle_asset_from_resources(file_num: u32, kind: SpriteKind, resources: Vec<RleResource>) -> (a: RleAsset)
    ensures
        a.file_num == file_num,
        a.kind == kind,
        a.sprites@.len() == resources@.len(),
        forall|i: int|
            0 <= i < resources@.len() ==> sprite_fields(#[trigger] a.sprites@[i]) == sprite_of_resource(
                resources@[i],
            ),
{
    let mut sprites: Vec<RleSprite> = Vec::new();
    let mut rest = resources;
    let ghost orig = rest@;
    let mut taken: usize = 0;
    assert(orig.len() == rest.len());
    while rest.len() > 0
        invariant
            taken + rest@.len() == orig.len(),
            orig.len() <= usize::MAX,
            rest@ =~= orig.subrange(taken as int, orig.len() as int),
            sprites@.len() == taken,
            forall|i: int|
                0 <= i < taken ==> sprite_fields(#[trigger] sprites@[i]) == sprite_of_resource(orig[i]),
        decreases rest@.len(),
    {
        let r = rest.remove(0);
        assert(r == orig[taken as int]);
        sprites.push(
            RleSprite {
                index: r.index,
                width: r.width,
                height: r.height,
                x_off: r.offset_x,
                y_off: r.offset_y,
                image_raw: r.image_raw,
            },
        );
        taken = taken + 1;
    }
    RleAsset { file_num, kind, sprites }
}

} // verus!
