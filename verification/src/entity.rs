//! Plain-value model of the parsed game data: map files (`.rmm`), data files
//! (`.rmd`) and list files (`.lst`), as far as the client logic reads them.
use vstd::prelude::*;

verus! {

/// A reference into a resource file: a file number and an index inside it.
#[derive(Clone, Copy, Debug, PartialEq, Eq, Structural, Hash)]
pub struct Entry {
    pub file: u32,
    pub index: u32,
}

impl Entry {
    pub fn new(file: u32, index: u32) -> (e: Entry)
        ensures
            e.file == file,
            e.index == index,
    {
        Entry { file, index }
    }

    pub fn file(&self) -> (f: u32)
        ensures
            f == self.file,
    {
        self.file
    }

    pub fn index(&self) -> (i: u32)
        ensures
            i == self.index,
    {
        self.index
    }
}

/// One cell of a map: the tile-layer and object-layer data references, the
/// collision code and the warp code.
#[derive(Clone, Copy, Debug, PartialEq, Eq, Structural)]
pub struct MapTile {
    pub tle_rmd_entry: Entry,
    pub obj_rmd_entry: Entry,
    pub collision: u32,
    pub warp: u32,
}

/// A parsed map: its size in tiles and its tiles in row-major order.
#[derive(Debug)]
pub struct GameMap {
    pub name: String,
    pub size_x: u32,
    pub size_y: u32,
    pub tiles: Vec<MapTile>,
}

impl GameMap {
    pub fn size_x(&self) -> (s: u32)
        ensures
            s == self.size_x,
    {
        self.size_x
    }

    pub fn size_y(&self) -> (s: u32)
        ensures
            s == self.size_y,
    {
        self.size_y
    }

    pub fn tiles(&self) -> (t: &Vec<MapTile>)
        ensures
            t@ == self.tiles@,
    {
        &self.tiles
    }
}

/// One image part of a data-file entry: the source rectangle in the sprite,
/// the destination offset, draw order, layer and draw type, and the list
/// indices of the sprites it uses.
#[derive(Debug)]
pub struct RmdImage {
    pub source_x1: i32,
    pub source_y1: i32,
    pub source_x2: i32,
    pub source_y2: i32,
    pub dest_x: i32,
    pub dest_y: i32,
    pub render_z: i32,
    /// Semantic layer (0 body, 1 skill effect, 2 shadow, 3 clothes, 4 hair, 5 and 6 weapon effects).
    pub empty_2: i32,
    pub draw_type: i32,
    pub image_id: Vec<u32>,
}

#[derive(Debug)]
pub struct RmdEntry {
    pub images: Vec<RmdImage>,
}

impl RmdEntry {
    pub fn images(&self) -> (i: &Vec<RmdImage>)
        ensures
            i@ == self.images@,
    {
        &self.images
    }
}

#[derive(Debug)]
pub struct RmdAnimation {
    pub frames: Vec<i32>,
}

impl RmdAnimation {
    pub fn frames(&self) -> (f: &Vec<i32>)
        ensures
            f@ == self.frames@,
    {
        &self.frames
    }
}

/// A parsed data file.
#[derive(Debug)]
pub struct Rmd {
    pub animation_count: u32,
    pub animation_entry_count: u32,
    pub entries: Vec<RmdEntry>,
    pub animations: Vec<RmdAnimation>,
}

impl Rmd {
    /// The entry at `index`, if there is one.
    pub fn get_entry(&self, index: usize) -> (e: Option<&RmdEntry>)
        ensures
            index < self.entries@.len() ==> e == Some(&self.entries@[index as int]),
            index >= self.entries@.len() ==> e is None,
    {
        if index < self.entries.len() {
            Some(&self.entries[index])
        } else {
            None
        }
    }
}

/// The kind of a data file, named by the folder that holds it.
#[derive(Clone, Copy, Debug, PartialEq, Eq, Structural, Hash)]
pub enum RmdType {
    Bullet,
    Icon,
    Character,
    Object,
    Tile,
}

/// One line of a list file: the sprite it refers to.
#[derive(Clone, Copy, Debug, PartialEq, Eq, Structural)]
pub struct ListItem {
    pub entry: Entry,
}

/// A parsed list file.
#[derive(Debug)]
pub struct ListAsset {
    pub items: Vec<ListItem>,
}

impl ListAsset {
    /// The item at `index`, if there is one.
    pub fn get_item(&self, index: usize) -> (i: Option<&ListItem>)
        ensures
            index < self.items@.len() ==> i == Some(&self.items@[index as int]),
            index >= self.items@.len() ==> i is None,
    {
        if index < self.items.len() {
            Some(&self.items[index])
        } else {
            None
        }
    }
}

} // verus!
