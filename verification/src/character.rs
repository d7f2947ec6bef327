//! The player record of the classic client.
use vstd::prelude::*;

verus! {

/// The player record: screen position, character kind and list.
#[derive(Clone, Copy, Debug)]
pub struct Player {
    pub position: (u32, u32),
    pub kind: u32,
    pub list_id: u32,
}

impl Player {
    /// A player at (100, 100) of kind 0 and list 0.
    pub fn new() -> (p: Player)
        ensures
            p.position == (100u32, 100u32),
            p.kind == 0,
            p.list_id == 0,
    {
        Player { position: (100, 100), kind: 0, list_id: 0 }
    }
}

} // verus!
