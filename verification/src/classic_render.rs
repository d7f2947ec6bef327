//! What the classic renderer draws of a map: for one layer, every sprite of
//! every tile in tile order, and where its source and destination
//! rectangles lie on the screen.
use vstd::prelude::*;
use crate::constants::{TILE_H_PX, TILE_W_PX};
use crate::entity::{Entry, GameMap, ListAsset, Rmd};
use crate::game::{entry_ids_in_list, entry_ids_listed};
use crate::map_spawn::{LoadedRmds, layer_entry, lemma_tile_position_bounds, next_tile, tile_position};
use crate::paths::MapLayer;

verus! {

/// One sprite of a map tile: the tile's grid position and collision code,
/// the sprite (list entry), and the source corners and destination offset
/// of the image that shows it.
#[derive(Clone, Copy, Debug, PartialEq, Eq, Structural)]
pub struct ClassicSprite {
    pub tile_x: i32,
    pub tile_y: i32,
    pub collision: u32,
    pub entry: Entry,
    pub source_x1: i32,
    pub source_y1: i32,
    pub source_x2: i32,
    pub source_y2: i32,
    pub dest_x: i32,
    pub dest_y: i32,
}

/// The sprite that id `d` of image `g` of entry `ei` shows on the tile at
/// `(tx, ty)`.
pub open spec fn classic_sprite_spec(
    rmd: &Rmd,
    list: &ListAsset,
    ei: int,
    g: int,
    d: int,
    tx: int,
    ty: int,
    collision: u32,
) -> ClassicSprite {
    let img = rmd.entries@[ei].images@[g];
    ClassicSprite {
        tile_x: tx as i32,
        tile_y: ty as i32,
        collision,
        entry: list.items@[img.image_id@[d] as int].entry,
        source_x1: img.source_x1,
        source_y1: img.source_y1,
        source_x2: img.source_x2,
        source_y2: img.source_y2,
        dest_x: img.dest_x,
        dest_y: img.dest_y,
    }
}

/// The sprites of the first `n` ids of image `g` of entry `ei`.
pub open spec fn classic_image_sprites(
    rmd: &Rmd,
    list: &ListAsset,
    ei: int,
    g: int,
    tx: int,
    ty: int,
    collision: u32,
    n: nat,
) -> Seq<ClassicSprite>
    decreases n,
{
    if n == 0 {
        Seq::empty()
    } else {
        classic_image_sprites(rmd, list, ei, g, tx, ty, collision, (n - 1) as nat).push(
            classic_sprite_spec(rmd, list, ei, g, n - 1, tx, ty, collision),
        )
    }
}

/// The sprites of the first `n` images of entry `ei`.
pub open spec fn classic_entry_sprites(
    rmd: &Rmd,
    list: &ListAsset,
    ei: int,
    tx: int,
    ty: int,
    collision: u32,
    n: nat,
) -> Seq<ClassicSprite>
    decreases n,
{
    if n == 0 {
        Seq::empty()
    } else {
        classic_entry_sprites(rmd, list, ei, tx, ty, collision, (n - 1) as nat) + classic_image_sprites(
            rmd,
            list,
            ei,
            n - 1,
            tx,
            ty,
            collision,
            rmd.entries@[ei].images@[n - 1].image_id@.len(),
        )
    }
}

/// The sprites tile `t` shows on a layer: none for a reference to file 0,
/// to a data file that is not loaded, or to an entry the file lacks.
pub open spec fn classic_tile_sprites(
    map: &GameMap,
    rmds: &LoadedRmds,
    list: &ListAsset,
    layer: MapLayer,
    stride: int,
    t: int,
) -> Seq<ClassicSprite> {
    let e = layer_entry(map.tiles@[t], layer);
    let (tx, ty) = tile_position(t as nat, stride);
    if e.file == 0 {
        Seq::empty()
    } else {
        match rmds.lookup(e.file) {
            Some(r) => if (e.index as int) < r.entries@.len() {
                classic_entry_sprites(
                    r,
                    list,
                    e.index as int,
                    tx,
                    ty,
                    map.tiles@[t].collision,
                    r.entries@[e.index as int].images@.len(),
                )
            } else {
                Seq::empty()
            },
            None => Seq::empty(),
        }
    }
}

/// The sprites of the first `n` tiles of a layer, in tile order.
pub open spec fn classic_layer_sprites_spec(
    map: &GameMap,
    rmds: &LoadedRmds,
    list: &ListAsset,
    layer: MapLayer,
    stride: int,
    n: nat,
) -> Seq<ClassicSprite>
    decreases n,
{
    if n == 0 {
        Seq::empty()
    } else {
        classic_layer_sprites_spec(map, rmds, list, layer, stride, (n - 1) as nat) + classic_tile_sprites(
            map,
            rmds,
            list,
            layer,
            stride,
            n - 1,
        )
    }
}

/// Whether every entry a layer's references reach lists its image ids.
pub open spec fn layer_ids_listed(map: &GameMap, rmds: &LoadedRmds, list: &ListAsset, layer: MapLayer) -> bool {
    forall|t: int|
        0 <= t < map.tiles@.len() ==> (rmds.lookup(#[trigger] layer_entry(map.tiles@[t], layer).file) matches Some(
            r,
        ) ==> entry_ids_listed(r, list, layer_entry(map.tiles@[t], layer).index as int))
}

/// Whether every entry a layer's references reach lists its image ids.
pub fn layer_ids_in_list(map: &GameMap, rmds: &LoadedRmds, list: &ListAsset, layer: MapLayer) -> (b: bool)
    requires
        rmds.wf(),
    ensures
        b == layer_ids_listed(map, rmds, list, layer),
{
    let mut t: usize = 0;
    while t < map.tiles.len()
        invariant
            rmds.wf(),
            t <= map.tiles@.len(),
            forall|u: int|
                0 <= u < t ==> (rmds.lookup(#[trigger] layer_entry(map.tiles@[u], layer).file) matches Some(
                    r,
                ) ==> entry_ids_listed(r, list, layer_entry(map.tiles@[u], layer).index as int)),
        decreases map.tiles@.len() - t,
    {
        let tile = &map.tiles[t];
        let e = match layer {
            MapLayer::Tile => tile.tle_rmd_entry,
            MapLayer::Object => tile.obj_rmd_entry,
        };
        assert(e == layer_entry(map.tiles@[t as int], layer));
        match rmds.get(e.file) {
            Some(r) => {
                if !entry_ids_in_list(r, list, e.index as usize) {
                    return false;
                }
            },
            None => {},
        }
        t = t + 1;
    }
    true
}

fn add_entry_sprites(
    rmd: &Rmd,
    list: &ListAsset,
    ei: usize,
    tx: i32,
    ty: i32,
    collision: u32,
    out: &mut Vec<ClassicSprite>,
)
    requires
        ei < rmd.entries@.len(),
        entry_ids_listed(rmd, list, ei as int),
    ensures
        final(out)@ == old(out)@ + classic_entry_sprites(
            rmd,
            list,
            ei as int,
            tx as int,
            ty as int,
            collision,
            rmd.entries@[ei as int].images@.len(),
        ),
{
    let ghost start = out@;
    let images = &rmd.entries[ei].images;
    let mut g: usize = 0;
    while g < images.len()
        invariant
            ei < rmd.entries@.len(),
            entry_ids_listed(rmd, list, ei as int),
            *images == rmd.entries@[ei as int].images,
            g <= images@.len(),
            out@ == start + classic_entry_sprites(rmd, list, ei as int, tx as int, ty as int, collision, g as nat),
        decreases images@.len() - g,
    {
        let ghost at_image = out@;
        let img = &images[g];
        let mut d: usize = 0;
        while d < img.image_id.len()
            invariant
                ei < rmd.entries@.len(),
                entry_ids_listed(rmd, list, ei as int),
                *images == rmd.entries@[ei as int].images,
                g < images@.len(),
                *img == images@[g as int],
                d <= img.image_id@.len(),
                out@ == at_image + classic_image_sprites(
                    rmd,
                    list,
                    ei as int,
                    g as int,
                    tx as int,
                    ty as int,
                    collision,
                    d as nat,
                ),
            decreases img.image_id@.len() - d,
        {
            let id = img.image_id[d];
            assert(id < list.items@.len());
            let item = &list.items[id as usize];
            out.push(
                ClassicSprite {
                    tile_x: tx,
                    tile_y: ty,
                    collision,
                    entry: item.entry,
                    source_x1: img.source_x1,
                    source_y1: img.source_y1,
                    source_x2: img.source_x2,
                    source_y2: img.source_y2,
                    dest_x: img.dest_x,
                    dest_y: img.dest_y,
                },
            );
            assert(out@ =~= at_image + classic_image_sprites(
                rmd,
                list,
                ei as int,
                g as int,
                tx as int,
                ty as int,
                collision,
                (d + 1) as nat,
            ));
            d = d + 1;
        }
        assert(out@ =~= start + classic_entry_sprites(
            rmd,
            list,
            ei as int,
            tx as int,
            ty as int,
            collision,
            (g + 1) as nat,
        ));
        g = g + 1;
    }
}

/// Every sprite one layer of the map shows, tile by tile in tile order,
/// with the tile's grid position: for each tile whose reference names a
/// file other than 0, whose data file is loaded and has the entry, the
/// sprites of each id of each image of that entry.
pub fn classic_layer_sprites(map: &GameMap, rmds: &LoadedRmds, list: &ListAsset, layer: MapLayer) -> (v: Vec<
    ClassicSprite,
>)
    requires
        rmds.wf(),
        layer_ids_listed(map, rmds, list, layer),
        map.tiles@.len() < i32::MAX,
    ensures
        v@ == classic_layer_sprites_spec(
            map,
            rmds,
            list,
            layer,
            (map.size_x as i32) as int,
            map.tiles@.len(),
        ),
{
    let stride = map.size_x() as i32;
    let mut out: Vec<ClassicSprite> = Vec::new();
    let mut tile_x: i32 = 0;
    let mut tile_y: i32 = 0;
    let mut t: usize = 0;
    while t < map.tiles.len()
        invariant
            rmds.wf(),
            layer_ids_listed(map, rmds, list, layer),
            map.tiles@.len() < i32::MAX,
            stride == (map.size_x as i32),
            t <= map.tiles@.len(),
            (tile_x as int, tile_y as int) == tile_position(t as nat, stride as int),
            out@ == classic_layer_sprites_spec(map, rmds, list, layer, stride as int, t as nat),
        decreases map.tiles@.len() - t,
    {
        proof {
            lemma_tile_position_bounds(t as nat, stride as int);
        }
        let tile = &map.tiles[t];
        let e = match layer {
            MapLayer::Tile => tile.tle_rmd_entry,
            MapLayer::Object => tile.obj_rmd_entry,
        };
        assert(e == layer_entry(map.tiles@[t as int], layer));
        if e.file != 0 {
            match rmds.get(e.file) {
                Some(rmd) => {
                    if (e.index as usize) < rmd.entries.len() {
                        add_entry_sprites(rmd, list, e.index as usize, tile_x, tile_y, tile.collision, &mut out);
                    }
                },
                None => {},
            }
        }
        assert(out@ =~= classic_layer_sprites_spec(map, rmds, list, layer, stride as int, (t + 1) as nat));
        next_tile(&mut tile_x, &mut tile_y, stride);
        t = t + 1;
    }
    out
}

/// A screen rectangle: corner and size in pixels.
#[derive(Clone, Copy, Debug, PartialEq, Eq, Structural)]
pub struct ScreenRect {
    pub x: i64,
    pub y: i64,
    pub w: i64,
    pub h: i64,
}

/// Where a tile sprite is drawn from and to: the image's source area, and
/// the tile cell at the tile's corner moved by the map scroll offset.
pub open spec fn classic_tile_rects_spec(s: ClassicSprite, map_off_x: i32, map_off_y: i32) -> (ScreenRect, ScreenRect) {
    (
        ScreenRect {
            x: s.source_x1 as i64,
            y: s.source_y1 as i64,
            w: (s.source_x2 - s.source_x1) as i64,
            h: (s.source_y2 - s.source_y1) as i64,
        },
        ScreenRect {
            x: (s.tile_x * TILE_W_PX + map_off_x) as i64,
            y: (s.tile_y * TILE_H_PX + map_off_y) as i64,
            w: TILE_W_PX as i64,
            h: TILE_H_PX as i64,
        },
    )
}

/// Where a tile sprite is drawn from and to: the image's source area, and
/// the tile cell at the tile's corner moved by the map scroll offset.
pub fn classic_tile_rects(s: &ClassicSprite, map_off_x: i32, map_off_y: i32) -> (r: (ScreenRect, ScreenRect))
    ensures
        r == classic_tile_rects_spec(*s, map_off_x, map_off_y),
{
    let src = ScreenRect {
        x: s.source_x1 as i64,
        y: s.source_y1 as i64,
        w: s.source_x2 as i64 - s.source_x1 as i64,
        h: s.source_y2 as i64 - s.source_y1 as i64,
    };
    let tx = s.tile_x as i64;
    let ty = s.tile_y as i64;
    assert(-0x1_0000_0000 * 48 <= tx * 48 <= 0x1_0000_0000 * 48) by (nonlinear_arith)
        requires
            -0x1_0000_0000 <= tx <= 0x1_0000_0000,
    ;
    assert(-0x1_0000_0000 * 24 <= ty * 24 <= 0x1_0000_0000 * 24) by (nonlinear_arith)
        requires
            -0x1_0000_0000 <= ty <= 0x1_0000_0000,
    ;
    let dst = ScreenRect {
        x: tx * TILE_W_PX as i64 + map_off_x as i64,
        y: ty * TILE_H_PX as i64 + map_off_y as i64,
        w: TILE_W_PX as i64,
        h: TILE_H_PX as i64,
    };
    (src, dst)
}

/// The point of a tile sprite that the view test looks at: the corner of
/// its tile, `(tile_x * 48, tile_y * 24)`, before scrolling.
pub fn classic_tile_corner(s: &ClassicSprite) -> (p: (i64, i64))
    ensures
        p == ((s.tile_x * TILE_W_PX) as i64, (s.tile_y * TILE_H_PX) as i64),
{
    let tx = s.tile_x as i64;
    let ty = s.tile_y as i64;
    assert(-0x1_0000_0000 * 48 <= tx * 48 <= 0x1_0000_0000 * 48) by (nonlinear_arith)
        requires
            -0x1_0000_0000 <= tx <= 0x1_0000_0000,
    ;
    assert(-0x1_0000_0000 * 24 <= ty * 24 <= 0x1_0000_0000 * 24) by (nonlinear_arith)
        requires
            -0x1_0000_0000 <= ty <= 0x1_0000_0000,
    ;
    (tx * TILE_W_PX as i64, ty * TILE_H_PX as i64)
}

/// What the classic renderer draws of a tile sprite: nothing when its
/// tile's corner lies outside the view (`in_view` is that test's answer);
/// otherwise its source area into the scrolled tile cell.
pub fn classic_tile_draw(s: &ClassicSprite, in_view: bool, map_off_x: i32, map_off_y: i32) -> (r: Option<
    (ScreenRect, ScreenRect),
>)
    ensures
        in_view ==> r == Some(classic_tile_rects_spec(*s, map_off_x, map_off_y)),
        !in_view ==> r is None,
{
    if !in_view {
        return None;
    }
    Some(classic_tile_rects(s, map_off_x, map_off_y))
}

/// The corners of an object sprite's source area in the sprite's own
/// pixels: the image's source corners moved by the sprite's drawing offset.
pub fn classic_object_source(s: &ClassicSprite, x_off: i32, y_off: i32) -> (c: (i64, i64, i64, i64))
    ensures
        c == ((s.source_x1 - x_off) as i64, (s.source_y1 - y_off) as i64, (s.source_x2 - x_off) as i64, (
        s.source_y2 - y_off) as i64),
{
    (
        s.source_x1 as i64 - x_off as i64,
        s.source_y1 as i64 - y_off as i64,
        s.source_x2 as i64 - x_off as i64,
        s.source_y2 as i64 - y_off as i64,
    )
}

/// Where an object sprite's clipped area is drawn: when the source area
/// meets the sprite, the part cut off on the left and top shifts the
/// destination right and down; the destination is then moved by the map
/// scroll offset, the tile's corner and the image's destination offset.
pub fn classic_object_dest(s: &ClassicSprite, x1: i64, y1: i64, meets_sprite: bool, map_off_x: i32, map_off_y: i32) -> (p: (
    i64,
    i64,
))
    requires
        -0x1_0000_0000 <= x1 <= 0x1_0000_0000,
        -0x1_0000_0000 <= y1 <= 0x1_0000_0000,
    ensures
        p.0 == (if meets_sprite && x1 < 0 {
            -x1
        } else {
            0
        }) + map_off_x + s.tile_x * TILE_W_PX + s.dest_x,
        p.1 == (if meets_sprite && y1 < 0 {
            -y1
        } else {
            0
        }) + map_off_y + s.tile_y * TILE_H_PX + s.dest_y,
{
    let x_diff: i64 = if meets_sprite && x1 < 0 {
        -x1
    } else {
        0
    };
    let y_diff: i64 = if meets_sprite && y1 < 0 {
        -y1
    } else {
        0
    };
    let tx = s.tile_x as i64;
    let ty = s.tile_y as i64;
    assert(-0x1_0000_0000 * 48 <= tx * 48 <= 0x1_0000_0000 * 48) by (nonlinear_arith)
        requires
            -0x1_0000_0000 <= tx <= 0x1_0000_0000,
    ;
    assert(-0x1_0000_0000 * 24 <= ty * 24 <= 0x1_0000_0000 * 24) by (nonlinear_arith)
        requires
            -0x1_0000_0000 <= ty <= 0x1_0000_0000,
    ;
    (
        x_diff + map_off_x as i64 + tx * TILE_W_PX as i64 + s.dest_x as i64,
        y_diff + map_off_y as i64 + ty * TILE_H_PX as i64 + s.dest_y as i64,
    )
}

/// Where pixel `(x, y)` of a rendered glyph lands in an RGBA texture
/// `width` by `height` pixels whose rows lie `pitch` bytes apart: the byte
/// offset of the pixel, or `None` when the pixel falls outside the texture
/// (the size is compared as signed numbers).
pub fn glyph_pixel_offset(x: i32, y: i32, width: usize, height: usize, pitch: usize) -> (r: Option<usize>)
    requires
        height * pitch + width * 4 <= usize::MAX,
    ensures
        r == (if 0 <= x < (width as i32) && 0 <= y < (height as i32) {
            Some((y * pitch + x * 4) as usize)
        } else {
            None
        }),
{
    if x >= 0 && x < width as i32 && y >= 0 && y < height as i32 {
        let xu = x as usize;
        let yu = y as usize;
        assert(xu < width && yu < height) by (bit_vector)
            requires
                0 <= x,
                x < (width as i32),
                0 <= y,
                y < (height as i32),
                xu == x as usize,
                yu == y as usize,
        ;
        assert(yu * pitch + xu * 4 <= height * pitch + width * 4) by (nonlinear_arith)
            requires
                xu < width,
                yu < height,
        ;
        Some(yu * pitch + xu * 4)
    } else {
        None
    }
}

} // verus!
