//! The asset naming scheme: where maps, data files, list files and sprite
//! files live, and the map number in a map file name.
use vstd::prelude::*;
use vstd::string::StringExecFns;
use vstd::string::StrSliceExecFns;
use crate::asset_loader::SpriteKind;
use crate::text::{
    append_zero_padded, is_digit, lemma_zero_padded_shape, parse_unsigned,
    parse_unsigned_spec, pow10, zero_padded,
};

verus! {

/// The two drawn layers of a map.
#[derive(Clone, Copy, Debug, PartialEq, Eq, Structural, Hash)]
pub enum MapLayer {
    Tile,
    Object,
}

impl MapLayer {
    pub open spec fn spec_sprite_kind(self) -> SpriteKind {
        match self {
            MapLayer::Tile => SpriteKind::Tile,
            MapLayer::Object => SpriteKind::Object,
        }
    }

    /// The sprite kind of the layer's sprites.
    pub fn sprite_kind(self) -> (k: SpriteKind)
        ensures
            k == self.spec_sprite_kind(),
    {
        match self {
            MapLayer::Tile => SpriteKind::Tile,
            MapLayer::Object => SpriteKind::Object,
        }
    }
}

/// `data/DATAs/Map/Map{number:05}.rmm`
pub fn map_asset_path(number: usize) -> (p: String)
    ensures
        p@ == "data/DATAs/Map/Map"@ + zero_padded(number as nat, 5) + ".rmm"@,
{
    let mut p = String::from_str("data/DATAs/Map/Map");
    append_zero_padded(&mut p, number as u64, 5);
    p.append(".rmm");
    p
}

pub open spec fn layer_rmd_prefix(layer: MapLayer) -> Seq<char> {
    match layer {
        MapLayer::Tile => "data/DATAs/Tle/tle"@,
        MapLayer::Object => "data/DATAs/Obj/obj"@,
    }
}

pub open spec fn layer_rle_prefix(layer: MapLayer) -> Seq<char> {
    match layer {
        MapLayer::Tile => "data/RLEs/Tle/tle"@,
        MapLayer::Object => "data/RLEs/Obj/obj"@,
    }
}

/// `data/DATAs/Tle/tle{n:05}.rmd` or `data/DATAs/Obj/obj{n:05}.rmd`
pub fn layer_rmd_path(layer: MapLayer, n: u32) -> (p: String)
    ensures
        p@ == layer_rmd_prefix(layer) + zero_padded(n as nat, 5) + ".rmd"@,
{
    let mut p = match layer {
        MapLayer::Tile => String::from_str("data/DATAs/Tle/tle"),
        MapLayer::Object => String::from_str("data/DATAs/Obj/obj"),
    };
    append_zero_padded(&mut p, n as u64, 5);
    p.append(".rmd");
    p
}

/// `data/RLEs/Tle/tle{n:05}.rle` or `data/RLEs/Obj/obj{n:05}.rle`
pub fn layer_rle_path(layer: MapLayer, n: u32) -> (p: String)
    ensures
        p@ == layer_rle_prefix(layer) + zero_padded(n as nat, 5) + ".rle"@,
{
    let mut p = match layer {
        MapLayer::Tile => String::from_str("data/RLEs/Tle/tle"),
        MapLayer::Object => String::from_str("data/RLEs/Obj/obj"),
    };
    append_zero_padded(&mut p, n as u64, 5);
    p.append(".rle");
    p
}

/// `data/DATAs/Chr/chr{char_enum:05}.rmd`
pub fn chr_rmd_path(char_enum: u32) -> (p: String)
    ensures
        p@ == "data/DATAs/Chr/chr"@ + zero_padded(char_enum as nat, 5) + ".rmd"@,
{
    let mut p = String::from_str("data/DATAs/Chr/chr");
    append_zero_padded(&mut p, char_enum as u64, 5);
    p.append(".rmd");
    p
}

/// `data/RLEs/Chr/c{char_enum:02}.lst`
pub fn chr_list_path(char_enum: u32) -> (p: String)
    ensures
        p@ == "data/RLEs/Chr/c"@ + zero_padded(char_enum as nat, 2) + ".lst"@,
{
    let mut p = String::from_str("data/RLEs/Chr/c");
    append_zero_padded(&mut p, char_enum as u64, 2);
    p.append(".lst");
    p
}

/// The character data files to start loading for character type
/// `char_enum`: its RMD file unless one is already known for the type, and
/// its list file unless one is already known.
pub fn char_asset_loads(char_enum: u32, rmd_known: bool, list_known: bool) -> (r: (
    Option<String>,
    Option<String>,
))
    ensures
        r.0 is Some <==> !rmd_known,
        r.1 is Some <==> !list_known,
        r.0 matches Some(p) ==> p@ == "data/DATAs/Chr/chr"@ + zero_padded(char_enum as nat, 5)
            + ".rmd"@,
        r.1 matches Some(p) ==> p@ == "data/RLEs/Chr/c"@ + zero_padded(char_enum as nat, 2)
            + ".lst"@,
{
    let rmd = if rmd_known {
        None
    } else {
        Some(chr_rmd_path(char_enum))
    };
    let list = if list_known {
        None
    } else {
        Some(chr_list_path(char_enum))
    };
    (rmd, list)
}

/// `data/RLEs/Chr/C{char_enum:02}/c{char_enum:02}{n:05}.rle`
pub fn chr_rle_path(char_enum: u32, n: u32) -> (p: String)
    ensures
        p@ == "data/RLEs/Chr/C"@ + zero_padded(char_enum as nat, 2) + "/c"@ + zero_padded(
            char_enum as nat,
            2,
        ) + zero_padded(n as nat, 5) + ".rle"@,
{
    let mut p = String::from_str("data/RLEs/Chr/C");
    append_zero_padded(&mut p, char_enum as u64, 2);
    p.append("/c");
    append_zero_padded(&mut p, char_enum as u64, 2);
    append_zero_padded(&mut p, n as u64, 5);
    p.append(".rle");
    p
}

pub open spec fn sprite_folder_spec(kind: SpriteKind) -> Seq<char> {
    match kind {
        SpriteKind::Bullet => "Bul"@,
        SpriteKind::Icon => "Ico"@,
        SpriteKind::Character => "Chr"@,
        SpriteKind::Object => "Obj"@,
        SpriteKind::Tile => "Tle"@,
        SpriteKind::Interface => "Int"@,
    }
}

pub open spec fn sprite_file_prefix(kind: SpriteKind) -> Seq<char> {
    match kind {
        SpriteKind::Bullet => "bul"@,
        SpriteKind::Icon => "ico"@,
        SpriteKind::Character => "chr"@,
        SpriteKind::Object => "obj"@,
        SpriteKind::Tile => "tle"@,
        SpriteKind::Interface => "int"@,
    }
}

/// The folder of a sprite kind under the sprite root: `Bul`, `Ico`, `Chr`,
/// `Obj`, `Tle` or `Int`.
pub fn sprite_folder(kind: SpriteKind) -> (f: &'static str)
    ensures
        f@ == sprite_folder_spec(kind),
{
    match kind {
        SpriteKind::Bullet => "Bul",
        SpriteKind::Icon => "Ico",
        SpriteKind::Character => "Chr",
        SpriteKind::Object => "Obj",
        SpriteKind::Tile => "Tle",
        SpriteKind::Interface => "Int",
    }
}

/// The file name of sprite file `number` of a kind, such as `tle00012.rle`.
pub fn sprite_file_name(kind: SpriteKind, number: u32) -> (f: String)
    ensures
        f@ == sprite_file_prefix(kind) + zero_padded(number as nat, 5) + ".rle"@,
{
    let mut f = match kind {
        SpriteKind::Bullet => String::from_str("bul"),
        SpriteKind::Icon => String::from_str("ico"),
        SpriteKind::Character => String::from_str("chr"),
        SpriteKind::Object => String::from_str("obj"),
        SpriteKind::Tile => String::from_str("tle"),
        SpriteKind::Interface => String::from_str("int"),
    };
    append_zero_padded(&mut f, number as u64, 5);
    f.append(".rle");
    f
}

/// Whether a file name is taken as a map file: it starts with `Map` and is
/// longer than 9 bytes.
pub open spec fn is_map_file_name(name: &str) -> bool {
    name@.len() >= 3 && name@.subrange(0, 3) == "Map"@ && name.len() > 9
}

/// The map number of a file in the map folder: for a name that starts with
/// `Map` and is longer than 9 bytes, the five-digit number written in its
/// characters 3 to 7 (`Map00012.rmm` gives 12); other names give `None`. A
/// map file name whose characters 3 to 7 are not a number is refused by
/// `requires`.
pub fn map_number_from_file_name(name: &str) -> (r: Option<usize>)
    requires
        is_map_file_name(name) ==> name@.len() >= 8 && parse_unsigned_spec(
            name@.subrange(3, 8),
            usize::MAX as int,
        ) is Some,
    ensures
        is_map_file_name(name) ==> r is Some && parse_unsigned_spec(
            name@.subrange(3, 8),
            usize::MAX as int,
        ) == Some(r->0 as int),
        !is_map_file_name(name) ==> r is None,
{
    proof {
        reveal_strlit("Map");
    }
    let n = name.unicode_len();
    if n < 3 || name.len() <= 9 {
        return None;
    }
    if !(name.get_char(0) == 'M' && name.get_char(1) == 'a' && name.get_char(2) == 'p') {
        assert(name@.subrange(0, 3) != "Map"@) by {
            if name@.subrange(0, 3) == "Map"@ {
                assert(name@.subrange(0, 3)[0] == 'M');
                assert(name@.subrange(0, 3)[1] == 'a');
                assert(name@.subrange(0, 3)[2] == 'p');
            }
        }
        return None;
    }
    assert(name@.subrange(0, 3) =~= "Map"@);
    match parse_unsigned(name, 3, 8, usize::MAX as u64) {
        Some(v) => Some(v as usize),
        None => None,
    }
}

/// The file name of map `n` as the map paths write it, `Map` + `n` in five
/// digits + `.rmm`, is taken as a map file, and the number read from it is
/// `n` again.
pub proof fn lemma_map_file_name_number(n: nat)
    requires
        n < 100000,
    ensures
        ({
            let name = "Map"@ + zero_padded(n, 5) + ".rmm"@;
            &&& name.len() == 12
            &&& name.subrange(0, 3) == "Map"@
            &&& parse_unsigned_spec(name.subrange(3, 8), usize::MAX as int) == Some(n as int)
        }),
{
    reveal_strlit("Map");
    reveal_strlit(".rmm");
    assert(pow10(5) == 100000) by {
        reveal_with_fuel(pow10, 6);
    }
    lemma_zero_padded_shape(n, 5);
    let s = zero_padded(n, 5);
    let name = "Map"@ + s + ".rmm"@;
    let body = name.subrange(3, 8);
    assert(body =~= s);
    assert(name.subrange(0, 3) =~= "Map"@);
    assert(is_digit(s[0]));
}

} // verus!
