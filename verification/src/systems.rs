//! Clipping of sprite source rectangles against the sprite bounds.
use vstd::prelude::*;

verus! {

/// A rectangle of sprite pixels, from `(min_x, min_y)` up to, not
/// including, `(max_x, max_y)`.
#[derive(Clone, Copy, Debug, PartialEq, Eq, Structural)]
pub struct PixelRect {
    pub min_x: i64,
    pub min_y: i64,
    pub max_x: i64,
    pub max_y: i64,
}

/// The result of clipping: the clipped source rectangle and the pixel
/// corrections to add to the destination position.
#[derive(Clone, Copy, Debug, PartialEq, Eq, Structural)]
pub struct ClippedSource {
    pub src: PixelRect,
    pub x_diff: i64,
    pub y_diff: i64,
}

pub open spec fn max_spec(a: int, b: int) -> int {
    if a >= b {
        a
    } else {
        b
    }
}

pub open spec fn clamp_spec(v: int, lo: int, hi: int) -> int {
    if v < lo {
        lo
    } else if v > hi {
        hi
    } else {
        v
    }
}

/// What clipping gives: the source rectangle moved by the sprite offset,
/// cut to the sprite's `width` by `height` pixels; `None` when nothing of
/// positive area is left.
pub open spec fn clip_spec(
    source_x1: i32,
    source_y1: i32,
    source_x2: i32,
    source_y2: i32,
    x_off: i32,
    y_off: i32,
    width: i32,
    height: i32,
) -> Option<ClippedSource> {
    let x1 = source_x1 - x_off;
    let y1 = source_y1 - y_off;
    let x2 = source_x2 - x_off;
    let y2 = source_y2 - y_off;
    let src = PixelRect {
        min_x: max_spec(x1, 0) as i64,
        min_y: max_spec(y1, 0) as i64,
        max_x: clamp_spec(x2, 0, width as int) as i64,
        max_y: clamp_spec(y2, 0, height as int) as i64,
    };
    if src.max_x > src.min_x && src.max_y > src.min_y {
        Some(ClippedSource { src, x_diff: max_spec(-x1, 0) as i64, y_diff: max_spec(-y1, 0) as i64 })
    } else {
        None
    }
}

/// Clips a sprite's source rectangle against its bounds after adjusting for
/// the stored sprite offset. Returns the clipped rectangle and the positive
/// pixel corrections to add to the destination position, or `None` when
/// the clipped rectangle has zero or negative area.
pub fn clip_sprite_src(
    source_x1: i32,
    source_y1: i32,
    source_x2: i32,
    source_y2: i32,
    x_off: i32,
    y_off: i32,
    width: i32,
    height: i32,
) -> (r: Option<ClippedSource>)
    requires
        width >= 0,
        height >= 0,
    ensures
        r == clip_spec(source_x1, source_y1, source_x2, source_y2, x_off, y_off, width, height),
        r matches Some(c) ==> c.src.min_x - c.x_diff == source_x1 - x_off && c.src.min_y - c.y_diff
            == source_y1 - y_off,
{
    proof {
        lemma_clip_keeps_anchor(source_x1, source_y1, source_x2, source_y2, x_off, y_off, width, height);
    }
    let x1 = source_x1 as i64 - x_off as i64;
    let y1 = source_y1 as i64 - y_off as i64;
    let x2 = source_x2 as i64 - x_off as i64;
    let y2 = source_y2 as i64 - y_off as i64;
    let x_diff = if -x1 > 0 {
        -x1
    } else {
        0
    };
    let y_diff = if -y1 > 0 {
        -y1
    } else {
        0
    };
    let min_x = if x1 > 0 {
        x1
    } else {
        0
    };
    let min_y = if y1 > 0 {
        y1
    } else {
        0
    };
    let max_x = if x2 < 0 {
        0
    } else if x2 > width as i64 {
        width as i64
    } else {
        x2
    };
    let max_y = if y2 < 0 {
        0
    } else if y2 > height as i64 {
        height as i64
    } else {
        y2
    };
    let src = PixelRect { min_x, min_y, max_x, max_y };
    if max_x > min_x && max_y > min_y {
        Some(ClippedSource { src, x_diff, y_diff })
    } else {
        None
    }
}

/// Clipping keeps the sprite in place: a clipped source corner, less the
/// destination correction, is the corner of the source moved by the sprite
/// offset, so the rows and columns cut off at the top and left are added back
/// to the destination. The corrections are the amounts cut off (zero when
/// nothing is), and the clipped rectangle lies inside the sprite's
/// `width` by `height` pixels.
pub proof fn lemma_clip_keeps_anchor(
    source_x1: i32,
    source_y1: i32,
    source_x2: i32,
    source_y2: i32,
    x_off: i32,
    y_off: i32,
    width: i32,
    height: i32,
)
    requires
        width >= 0,
        height >= 0,
    ensures
        clip_spec(source_x1, source_y1, source_x2, source_y2, x_off, y_off, width, height) matches Some(c)
            ==> {
            &&& c.src.min_x - c.x_diff == source_x1 - x_off
            &&& c.src.min_y - c.y_diff == source_y1 - y_off
            &&& c.x_diff >= 0 && c.y_diff >= 0
            &&& (c.x_diff == 0 || c.src.min_x == 0)
            &&& (c.y_diff == 0 || c.src.min_y == 0)
            &&& c.x_diff == (if source_x1 < x_off { x_off - source_x1 } else { 0int })
            &&& c.y_diff == (if source_y1 < y_off { y_off - source_y1 } else { 0int })
            &&& 0 <= c.src.min_x < c.src.max_x <= width
            &&& 0 <= c.src.min_y < c.src.max_y <= height
            &&& c.src.max_x <= source_x2 - x_off && c.src.max_y <= source_y2 - y_off
        },
{
}

} // verus!
