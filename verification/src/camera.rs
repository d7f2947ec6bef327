//! The map size the camera keeps inside of.
use vstd::prelude::*;
use crate::entity::GameMap;

verus! {

/// The size of the shown map in tiles; zero while no map is loaded.
#[derive(Clone, Copy, Debug, PartialEq, Eq, Structural)]
pub struct MapBounds {
    pub width_tiles: i32,
    pub height_tiles: i32,
}

impl MapBounds {
    /// No map yet: a size of zero by zero.
    pub fn new() -> (b: MapBounds)
        ensures
            b.width_tiles == 0 && b.height_tiles == 0,
    {
        MapBounds { width_tiles: 0, height_tiles: 0 }
    }

    /// Takes the size of the shown map once it is loaded; keeps the size
    /// it had while it is not.
    pub fn update_from_map(&mut self, map: Option<&GameMap>)
        ensures
            map matches Some(m) ==> final(self).width_tiles == m.size_x as i32 && final(self).height_tiles
                == m.size_y as i32,
            map is None ==> *final(self) == *old(self),
    {
        if let Some(m) = map {
            self.width_tiles = m.size_x() as i32;
            self.height_tiles = m.size_y() as i32;
        }
    }
}

} // verus!
