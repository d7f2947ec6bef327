//! The classic client's game state: map number and scroll offset driven by
//! the controller, the player record, and the sprites a map needs.
use vstd::prelude::*;
use crate::asset_loader::SpriteKind;
use crate::entity::{Entry, GameMap, ListAsset, Rmd};
use crate::input::{
    keycode_effect, lemma_arrow_keys_drive_their_action_buttons, lemma_wasd_drive_the_move_buttons,
    Controller, Input, Key,
};
use crate::map_spawn::{LoadedRmds, layer_entry};
use crate::paths::MapLayer;
use crate::sprite_manager::{fetch_failed_at, load_map_sprites, requests_cached, SpriteLoadError, SpriteManager};

verus! {

/// Scroll offset of a freshly shown map.
pub const MAP_OFF_X_START: i32 = -24;

pub const MAP_OFF_Y_START: i32 = -48;

/// Scroll step of the action buttons, in pixels.
pub const SCROLL_STEP: i32 = 100;

/// Player grid position, current map and map scroll offset.
#[derive(Clone, Copy, Debug, PartialEq, Eq, Structural)]
pub struct State {
    pub player_x: usize,
    pub player_y: usize,
    pub map: usize,
    pub map_off_x: i32,
    pub map_off_y: i32,
}

/// The game: its state and its input.
#[derive(Clone, Copy, Debug)]
pub struct Game {
    pub state: State,
    pub input: Input,
}

/// The state after one update with the buttons of `k` held: the action
/// buttons scroll the map by 100 pixels (up and left add, down and right
/// subtract), move-down goes to the previous map if there is one and
/// move-up to the next map, both resetting the scroll offset.
pub open spec fn update_spec(s: State, k: Controller) -> State {
    let oy1 = if k.action_up.pressed {
        s.map_off_y + 100
    } else {
        s.map_off_y as int
    };
    let oy2 = if k.action_down.pressed {
        oy1 - 100
    } else {
        oy1
    };
    let ox1 = if k.action_right.pressed {
        s.map_off_x - 100
    } else {
        s.map_off_x as int
    };
    let ox2 = if k.action_left.pressed {
        ox1 + 100
    } else {
        ox1
    };
    let (m3, ox3, oy3) = if k.move_down.pressed && s.map > 0 {
        (s.map - 1, MAP_OFF_X_START as int, MAP_OFF_Y_START as int)
    } else {
        (s.map as int, ox2, oy2)
    };
    let (m4, ox4, oy4) = if k.move_up.pressed {
        (m3 + 1, MAP_OFF_X_START as int, MAP_OFF_Y_START as int)
    } else {
        (m3, ox3, oy3)
    };
    State {
        player_x: s.player_x,
        player_y: s.player_y,
        map: m4 as usize,
        map_off_x: ox4 as i32,
        map_off_y: oy4 as i32,
    }
}

/// Whether no step of an update overflows.
pub open spec fn update_fits(s: State, k: Controller) -> bool {
    let oy1 = if k.action_up.pressed {
        s.map_off_y + 100
    } else {
        s.map_off_y as int
    };
    let ox1 = if k.action_right.pressed {
        s.map_off_x - 100
    } else {
        s.map_off_x as int
    };
    let m3 = if k.move_down.pressed && s.map > 0 {
        s.map - 1
    } else {
        s.map as int
    };
    &&& oy1 <= i32::MAX
    &&& k.action_down.pressed ==> oy1 - 100 >= i32::MIN
    &&& ox1 >= i32::MIN
    &&& k.action_left.pressed ==> ox1 + 100 <= i32::MAX
    &&& k.move_up.pressed ==> m3 + 1 <= usize::MAX
}

impl State {
    /// The starting state: player at (50, 50), map 0, offset (-24, -48).
    pub fn new() -> (s: State)
        ensures
            s.player_x == 50 && s.player_y == 50,
            s.map == 0,
            s.map_off_x == MAP_OFF_X_START && s.map_off_y == MAP_OFF_Y_START,
    {
        State {
            player_x: 50,
            player_y: 50,
            map: 0,
            map_off_x: MAP_OFF_X_START,
            map_off_y: MAP_OFF_Y_START,
        }
    }
}

impl Game {
    /// The starting game with no input.
    pub fn new() -> (g: Game)
        ensures
            g.state.player_x == 50 && g.state.player_y == 50,
            g.state.map == 0,
            g.state.map_off_x == MAP_OFF_X_START && g.state.map_off_y == MAP_OFF_Y_START,
            !g.input.should_quit,
            g.input.should_resize is None,
    {
        Game { state: State::new(), input: Input::new() }
    }

    /// One update of the state from the held keyboard buttons.
    pub fn update(&mut self)
        requires
            update_fits(old(self).state, old(self).input.keyboard),
        ensures
            final(self).state == update_spec(old(self).state, old(self).input.keyboard),
            final(self).input == old(self).input,
    {
        let k = self.input.keyboard;
        if k.action_up.pressed {
            self.state.map_off_y += SCROLL_STEP;
        }
        if k.action_down.pressed {
            self.state.map_off_y -= SCROLL_STEP;
        }
        if k.action_right.pressed {
            self.state.map_off_x -= SCROLL_STEP;
        }
        if k.action_left.pressed {
            self.state.map_off_x += SCROLL_STEP;
        }
        if k.move_down.pressed {
            if self.state.map > 0 {
                self.state.map -= 1;
                self.state.map_off_x = MAP_OFF_X_START;
                self.state.map_off_y = MAP_OFF_Y_START;
            }
        }
        if k.move_up.pressed {
            self.state.map += 1;
            self.state.map_off_x = MAP_OFF_X_START;
            self.state.map_off_y = MAP_OFF_Y_START;
        }
    }

    /// The keyboard controller, to be changed by input events.
    pub fn get_mut_keyboard(&mut self) -> (k: &mut Controller)
        ensures
            *k == old(self).input.keyboard,
            final(self).input.keyboard == *final(k),
            final(self).state == old(self).state,
            final(self).input.should_quit == old(self).input.should_quit,
            final(self).input.mouse_x == old(self).input.mouse_x,
            final(self).input.mouse_y == old(self).input.mouse_y,
    {
        &mut self.input.keyboard
    }
}

/// Holding the Right arrow key scrolls the map 100 pixels towards negative
/// x in the next update, and holding Left 100 pixels towards positive x,
/// when no other scroll or map-change button is held.
pub proof fn lemma_arrow_keys_scroll(s: State, c: Controller)
    requires
        !c.action_left.pressed && !c.action_right.pressed,
        !c.move_up.pressed && !c.move_down.pressed,
    ensures
        update_fits(s, keycode_effect(c, Key::Right, true)) ==> {
            let t = update_spec(s, keycode_effect(c, Key::Right, true));
            t.map_off_x == s.map_off_x - 100 && t.map == s.map
        },
        update_fits(s, keycode_effect(c, Key::Left, true)) ==> {
            let t = update_spec(s, keycode_effect(c, Key::Left, true));
            t.map_off_x == s.map_off_x + 100 && t.map == s.map
        },
{
    lemma_arrow_keys_drive_their_action_buttons(c, true);
    lemma_wasd_drive_the_move_buttons(c, true);
}

/// Scrolling up and then down, or left and then right, in one update
/// leaves the offset as it was, when no map change happens.
pub proof fn lemma_scroll_cancels(s: State, k: Controller)
    requires
        k.action_up.pressed && k.action_down.pressed,
        k.action_left.pressed && k.action_right.pressed,
        !k.move_up.pressed && !k.move_down.pressed,
        update_fits(s, k),
    ensures
        update_spec(s, k) == s,
{
}

/// Going to the previous map and then to the next one, in one update,
/// returns to the same map with the offset reset.
pub proof fn lemma_map_down_up(s: State, k: Controller)
    requires
        k.move_down.pressed && k.move_up.pressed,
        s.map > 0,
        update_fits(s, k),
    ensures
        update_spec(s, k).map == s.map,
        update_spec(s, k).map_off_x == MAP_OFF_X_START,
        update_spec(s, k).map_off_y == MAP_OFF_Y_START,
{
}

// ── Sprites a map needs ─────────────────────────────────────────────────────

/// Whether every image id of entry `ei` names an item of the list.
pub open spec fn entry_ids_listed(rmd: &Rmd, list: &ListAsset, ei: int) -> bool {
    0 <= ei < rmd.entries@.len() ==> forall|g: int, d: int|
        0 <= g < rmd.entries@[ei].images@.len() && 0 <= d < rmd.entries@[ei].images@[g].image_id@.len()
            ==> (#[trigger] rmd.entries@[ei].images@[g].image_id@[d]) < list.items@.len()
}

/// The sprites of the first `n` ids of image `g` of entry `ei`.
pub open spec fn image_requests(
    rmd: &Rmd,
    list: &ListAsset,
    kind: SpriteKind,
    ei: int,
    g: int,
    n: nat,
) -> Seq<(Entry, SpriteKind)>
    decreases n,
{
    if n == 0 {
        Seq::empty()
    } else {
        image_requests(rmd, list, kind, ei, g, (n - 1) as nat).push(
            (list.items@[rmd.entries@[ei].images@[g].image_id@[n - 1] as int].entry, kind),
        )
    }
}

/// The sprites of the first `n` images of entry `ei`.
pub open spec fn entry_requests(rmd: &Rmd, list: &ListAsset, kind: SpriteKind, ei: int, n: nat) -> Seq<
    (Entry, SpriteKind),
>
    decreases n,
{
    if n == 0 {
        Seq::empty()
    } else {
        entry_requests(rmd, list, kind, ei, (n - 1) as nat) + image_requests(
            rmd,
            list,
            kind,
            ei,
            n - 1,
            rmd.entries@[ei].images@[n - 1].image_id@.len(),
        )
    }
}

/// The sprites a layer reference of a tile needs, and whether the reference
/// names an entry its data file does not have.
pub open spec fn reference_requests(
    file: u32,
    index: u32,
    rmd: Option<&Rmd>,
    list: &ListAsset,
    kind: SpriteKind,
) -> Seq<(Entry, SpriteKind)> {
    match rmd {
        Some(r) => if (index as int) < r.entries@.len() {
            entry_requests(r, list, kind, index as int, r.entries@[index as int].images@.len())
        } else {
            Seq::empty()
        },
        None => Seq::empty(),
    }
}

/// The sprites tile `t` needs: those of its object reference, then those of
/// its tile reference. A reference to file 0 needs nothing; a reference to
/// a data file that could not be loaded ends the tile.
pub open spec fn tile_requests(
    map: &GameMap,
    obj_rmds: &LoadedRmds,
    tle_rmds: &LoadedRmds,
    obj_list: &ListAsset,
    tle_list: &ListAsset,
    t: int,
) -> Seq<(Entry, SpriteKind)> {
    let oe = layer_entry(map.tiles@[t], MapLayer::Object);
    let te = layer_entry(map.tiles@[t], MapLayer::Tile);
    let obj_part = if oe.file != 0 {
        reference_requests(oe.file, oe.index, obj_rmds.lookup(oe.file), obj_list, SpriteKind::Object)
    } else {
        Seq::empty()
    };
    let obj_stops = oe.file != 0 && obj_rmds.lookup(oe.file) is None;
    let tle_part = if te.file != 0 {
        reference_requests(te.file, te.index, tle_rmds.lookup(te.file), tle_list, SpriteKind::Tile)
    } else {
        Seq::empty()
    };
    if obj_stops {
        obj_part
    } else {
        obj_part + tle_part
    }
}

pub open spec fn map_requests(
    map: &GameMap,
    obj_rmds: &LoadedRmds,
    tle_rmds: &LoadedRmds,
    obj_list: &ListAsset,
    tle_list: &ListAsset,
    n: nat,
) -> Seq<(Entry, SpriteKind)>
    decreases n,
{
    if n == 0 {
        Seq::empty()
    } else {
        map_requests(map, obj_rmds, tle_rmds, obj_list, tle_list, (n - 1) as nat) + tile_requests(
            map,
            obj_rmds,
            tle_rmds,
            obj_list,
            tle_list,
            n - 1,
        )
    }
}

/// The references of a data file that is loaded, to an entry it lacks.
pub open spec fn reference_missing(
    layer: MapLayer,
    file: u32,
    index: u32,
    rmd: Option<&Rmd>,
) -> Seq<(MapLayer, u32, u32)> {
    match rmd {
        Some(r) => if (index as int) < r.entries@.len() {
            Seq::empty()
        } else {
            seq![(layer, file, index)]
        },
        None => Seq::empty(),
    }
}

/// The references of tile `t` that name an entry their data file lacks:
/// the object reference, then the tile reference, unless the object's data
/// file could not be loaded.
pub open spec fn tile_missing(map: &GameMap, obj_rmds: &LoadedRmds, tle_rmds: &LoadedRmds, t: int) -> Seq<
    (MapLayer, u32, u32),
> {
    let oe = layer_entry(map.tiles@[t], MapLayer::Object);
    let te = layer_entry(map.tiles@[t], MapLayer::Tile);
    let obj_part = if oe.file != 0 {
        reference_missing(MapLayer::Object, oe.file, oe.index, obj_rmds.lookup(oe.file))
    } else {
        Seq::empty()
    };
    let obj_stops = oe.file != 0 && obj_rmds.lookup(oe.file) is None;
    let tle_part = if te.file != 0 {
        reference_missing(MapLayer::Tile, te.file, te.index, tle_rmds.lookup(te.file))
    } else {
        Seq::empty()
    };
    if obj_stops {
        obj_part
    } else {
        obj_part + tle_part
    }
}

pub open spec fn map_missing(map: &GameMap, obj_rmds: &LoadedRmds, tle_rmds: &LoadedRmds, n: nat) -> Seq<
    (MapLayer, u32, u32),
>
    decreases n,
{
    if n == 0 {
        Seq::empty()
    } else {
        map_missing(map, obj_rmds, tle_rmds, (n - 1) as nat) + tile_missing(map, obj_rmds, tle_rmds, n - 1)
    }
}

/// Whether every entry the map's references reach lists its image ids.
pub open spec fn map_ids_listed(
    map: &GameMap,
    obj_rmds: &LoadedRmds,
    tle_rmds: &LoadedRmds,
    obj_list: &ListAsset,
    tle_list: &ListAsset,
) -> bool {
    forall|t: int|
        0 <= t < map.tiles@.len() ==> {
            let oe = #[trigger] layer_entry(map.tiles@[t], MapLayer::Object);
            let te = layer_entry(map.tiles@[t], MapLayer::Tile);
            &&& obj_rmds.lookup(oe.file) matches Some(r) ==> entry_ids_listed(r, obj_list, oe.index as int)
            &&& tle_rmds.lookup(te.file) matches Some(r) ==> entry_ids_listed(r, tle_list, te.index as int)
        }
}

/// Whether every image id of entry `ei` names an item of the list.
pub fn entry_ids_in_list(rmd: &Rmd, list: &ListAsset, ei: usize) -> (b: bool)
    ensures
        b == entry_ids_listed(rmd, list, ei as int),
{
    if ei >= rmd.entries.len() {
        return true;
    }
    let images = &rmd.entries[ei].images;
    let mut g: usize = 0;
    while g < images.len()
        invariant
            ei < rmd.entries@.len(),
            *images == rmd.entries@[ei as int].images,
            g <= images@.len(),
            forall|g2: int, d: int|
                0 <= g2 < g && 0 <= d < images@[g2].image_id@.len() ==> (#[trigger] images@[g2].image_id@[d])
                    < list.items@.len(),
        decreases images@.len() - g,
    {
        let ids = &images[g].image_id;
        let mut d: usize = 0;
        while d < ids.len()
            invariant
                ei < rmd.entries@.len(),
                *images == rmd.entries@[ei as int].images,
                g < images@.len(),
                *ids == images@[g as int].image_id,
                d <= ids@.len(),
                forall|d2: int| 0 <= d2 < d ==> (#[trigger] ids@[d2]) < list.items@.len(),
                forall|g2: int, d2: int|
                    0 <= g2 < g && 0 <= d2 < images@[g2].image_id@.len() ==> (
                    #[trigger] images@[g2].image_id@[d2]) < list.items@.len(),
            decreases ids@.len() - d,
        {
            if ids[d] as usize >= list.items.len() {
                assert(rmd.entries@[ei as int].images@[g as int].image_id@[d as int] >= list.items@.len());
                return false;
            }
            d = d + 1;
        }
        assert forall|g2: int, d2: int|
            0 <= g2 < g + 1 && 0 <= d2 < images@[g2].image_id@.len() implies (#[trigger] images@[g2].image_id@[d2])
                < list.items@.len() by {
            if g2 == g {
                assert(images@[g2].image_id@[d2] == ids@[d2]);
            }
        }
        g = g + 1;
    }
    true
}

/// Whether every entry the map's references reach lists its image ids.
pub fn map_ids_in_lists(
    map: &GameMap,
    obj_rmds: &LoadedRmds,
    tle_rmds: &LoadedRmds,
    obj_list: &ListAsset,
    tle_list: &ListAsset,
) -> (b: bool)
    requires
        obj_rmds.wf(),
        tle_rmds.wf(),
    ensures
        b == map_ids_listed(map, obj_rmds, tle_rmds, obj_list, tle_list),
{
    let mut t: usize = 0;
    while t < map.tiles.len()
        invariant
            obj_rmds.wf(),
            tle_rmds.wf(),
            t <= map.tiles@.len(),
            forall|u: int|
                0 <= u < t ==> {
                    let oe = #[trigger] layer_entry(map.tiles@[u], MapLayer::Object);
                    let te = layer_entry(map.tiles@[u], MapLayer::Tile);
                    &&& obj_rmds.lookup(oe.file) matches Some(r) ==> entry_ids_listed(r, obj_list, oe.index as int)
                    &&& tle_rmds.lookup(te.file) matches Some(r) ==> entry_ids_listed(r, tle_list, te.index as int)
                },
        decreases map.tiles@.len() - t,
    {
        let tile = &map.tiles[t];
        let oe = tile.obj_rmd_entry;
        let te = tile.tle_rmd_entry;
        assert(oe == layer_entry(map.tiles@[t as int], MapLayer::Object));
        assert(te == layer_entry(map.tiles@[t as int], MapLayer::Tile));
        match obj_rmds.get(oe.file) {
            Some(r) => {
                if !entry_ids_in_list(r, obj_list, oe.index as usize) {
                    return false;
                }
            },
            None => {},
        }
        match tle_rmds.get(te.file) {
            Some(r) => {
                if !entry_ids_in_list(r, tle_list, te.index as usize) {
                    return false;
                }
            },
            None => {},
        }
        t = t + 1;
    }
    true
}

fn add_entry_requests(
    rmd: &Rmd,
    list: &ListAsset,
    kind: SpriteKind,
    ei: usize,
    out: &mut Vec<(Entry, SpriteKind)>,
)
    requires
        ei < rmd.entries@.len(),
        entry_ids_listed(rmd, list, ei as int),
    ensures
        final(out)@ == old(out)@ + entry_requests(
            rmd,
            list,
            kind,
            ei as int,
            rmd.entries@[ei as int].images@.len(),
        ),
{
    let ghost start = out@;
    let images = &rmd.entries[ei].images;
    let mut g: usize = 0;
    while g < images.len()
        invariant
            ei < rmd.entries@.len(),
            entry_ids_listed(rmd, list, ei as int),
            *images == rmd.entries@[ei as int].images,
            g <= images@.len(),
            out@ == start + entry_requests(rmd, list, kind, ei as int, g as nat),
        decreases images@.len() - g,
    {
        let ghost at_image = out@;
        let ids = &images[g].image_id;
        let mut d: usize = 0;
        while d < ids.len()
            invariant
                ei < rmd.entries@.len(),
                entry_ids_listed(rmd, list, ei as int),
                *images == rmd.entries@[ei as int].images,
                g < images@.len(),
                *ids == images@[g as int].image_id,
                d <= ids@.len(),
                out@ == at_image + image_requests(rmd, list, kind, ei as int, g as int, d as nat),
            decreases ids@.len() - d,
        {
            let id = ids[d];
            assert(id < list.items@.len());
            let item = list.items[id as usize];
            out.push((item.entry, kind));
            assert(out@ =~= at_image + image_requests(
                rmd,
                list,
                kind,
                ei as int,
                g as int,
                (d + 1) as nat,
            ));
            d = d + 1;
        }
        assert(out@ =~= start + entry_requests(rmd, list, kind, ei as int, (g + 1) as nat));
        g = g + 1;
    }
}

/// What loading a map needs: the sprites to fetch, in order, and the layer
/// references that name an entry their data file does not have (which are
/// reported).
pub struct MapLoadPlan {
    pub requests: Vec<(Entry, SpriteKind)>,
    pub missing_entries: Vec<(MapLayer, u32, u32)>,
}

/// The sprites a map needs, tile by tile: for each tile the sprites its
/// object reference draws, then those of its tile reference; a reference to
/// a data file that could not be loaded ends that tile. References to an
/// entry their data file lacks are collected for reporting.
pub fn map_sprite_requests(
    map: &GameMap,
    obj_rmds: &LoadedRmds,
    tle_rmds: &LoadedRmds,
    obj_list: &ListAsset,
    tle_list: &ListAsset,
) -> (p: MapLoadPlan)
    requires
        obj_rmds.wf(),
        tle_rmds.wf(),
        map_ids_listed(map, obj_rmds, tle_rmds, obj_list, tle_list),
    ensures
        p.requests@ == map_requests(map, obj_rmds, tle_rmds, obj_list, tle_list, map.tiles@.len()),
        p.missing_entries@ == map_missing(map, obj_rmds, tle_rmds, map.tiles@.len()),
{
    let mut requests: Vec<(Entry, SpriteKind)> = Vec::new();
    let mut missing: Vec<(MapLayer, u32, u32)> = Vec::new();
    let mut t: usize = 0;
    while t < map.tiles.len()
        invariant
            obj_rmds.wf(),
            tle_rmds.wf(),
            map_ids_listed(map, obj_rmds, tle_rmds, obj_list, tle_list),
            t <= map.tiles@.len(),
            requests@ == map_requests(map, obj_rmds, tle_rmds, obj_list, tle_list, t as nat),
            missing@ == map_missing(map, obj_rmds, tle_rmds, t as nat),
        decreases map.tiles@.len() - t,
    {
        let ghost start = requests@;
        let tile = map.tiles[t];
        let oe = tile.obj_rmd_entry;
        let te = tile.tle_rmd_entry;
        assert(oe == layer_entry(map.tiles@[t as int], MapLayer::Object));
        assert(te == layer_entry(map.tiles@[t as int], MapLayer::Tile));
        let mut stop = false;
        if oe.file != 0 {
            match obj_rmds.get(oe.file) {
                Some(rmd) => {
                    if (oe.index as usize) < rmd.entries.len() {
                        add_entry_requests(rmd, obj_list, SpriteKind::Object, oe.index as usize, &mut requests);
                    } else {
                        missing.push((MapLayer::Object, oe.file, oe.index));
                    }
                },
                None => {
                    stop = true;
                },
            }
        }
        let ghost after_obj = requests@;
        if !stop && te.file != 0 {
            match tle_rmds.get(te.file) {
                Some(rmd) => {
                    if (te.index as usize) < rmd.entries.len() {
                        add_entry_requests(rmd, tle_list, SpriteKind::Tile, te.index as usize, &mut requests);
                    } else {
                        missing.push((MapLayer::Tile, te.file, te.index));
                    }
                },
                None => {},
            }
        }
        assert(requests@ =~= map_requests(
            map,
            obj_rmds,
            tle_rmds,
            obj_list,
            tle_list,
            (t + 1) as nat,
        ));
        assert(missing@ =~= map_missing(map, obj_rmds, tle_rmds, (t + 1) as nat));
        t = t + 1;
    }
    MapLoadPlan { requests, missing_entries: missing }
}

/// Loads the sprites a map needs into the sprite store, as
/// `map_sprite_requests` lists them, through `load_map_sprites`: `Ok` when
/// every one is then loaded (at once when all already were), otherwise the
/// error of the first failing request, with the requests before it loaded.
/// Gives that outcome and the references that name an entry their data file
/// lacks (to be reported).
pub fn load_map<T, E, F: Fn(u32, SpriteKind) -> (Vec<(u32, T)>, Option<E>)>(
    map: &GameMap,
    obj_rmds: &LoadedRmds,
    tle_rmds: &LoadedRmds,
    obj_list: &ListAsset,
    tle_list: &ListAsset,
    sprites: &mut SpriteManager<T>,
    load: F,
) -> (r: (Result<(), SpriteLoadError<E>>, Vec<(MapLayer, u32, u32)>))
    requires
        obj_rmds.wf(),
        tle_rmds.wf(),
        map_ids_listed(map, obj_rmds, tle_rmds, obj_list, tle_list),
        forall|f: u32, k: SpriteKind| call_requires(load, (f, k)),
    ensures
        r.1@ == map_missing(map, obj_rmds, tle_rmds, map.tiles@.len()),
        r.0 is Ok ==> requests_cached(
            final(sprites).sprites(),
            map_requests(map, obj_rmds, tle_rmds, obj_list, tle_list, map.tiles@.len()),
            map_requests(map, obj_rmds, tle_rmds, obj_list, tle_list, map.tiles@.len()).len() as int,
        ),
        requests_cached(
            old(sprites).sprites(),
            map_requests(map, obj_rmds, tle_rmds, obj_list, tle_list, map.tiles@.len()),
            map_requests(map, obj_rmds, tle_rmds, obj_list, tle_list, map.tiles@.len()).len() as int,
        ) ==> r.0 is Ok && final(sprites).sprites() == old(sprites).sprites(),
        r.0 matches Err(SpriteLoadError::Load(e)) ==> exists|
            i: int,
            m: Map<(SpriteKind, Entry), T>,
            items: Vec<(u32, T)>,
        |
            #[trigger] fetch_failed_at(
                load,
                old(sprites).sprites(),
                final(sprites).sprites(),
                map_requests(map, obj_rmds, tle_rmds, obj_list, tle_list, map.tiles@.len()),
                i,
                m,
                items,
                Some(e),
            ),
        r.0 matches Err(SpriteLoadError::SpriteLoad) ==> exists|
            i: int,
            m: Map<(SpriteKind, Entry), T>,
            items: Vec<(u32, T)>,
        |
            #[trigger] fetch_failed_at(
                load,
                old(sprites).sprites(),
                final(sprites).sprites(),
                map_requests(map, obj_rmds, tle_rmds, obj_list, tle_list, map.tiles@.len()),
                i,
                m,
                items,
                None,
            ) && !final(sprites).sprites().contains_key(
                (
                    map_requests(map, obj_rmds, tle_rmds, obj_list, tle_list, map.tiles@.len())[i].1,
                    map_requests(map, obj_rmds, tle_rmds, obj_list, tle_list, map.tiles@.len())[i].0,
                ),
            ),
        final(sprites).spec_db_path() == old(sprites).spec_db_path(),
        forall|k: (SpriteKind, Entry)| #[trigger] old(sprites).sprites().contains_key(k) ==> final(sprites).sprites().contains_key(k),
{
    let plan = map_sprite_requests(map, obj_rmds, tle_rmds, obj_list, tle_list);
    let res = load_map_sprites(sprites, &plan.requests, load);
    (res, plan.missing_entries)
}

} // verus!
