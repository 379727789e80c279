//! Placement of the settings panel beside the toolbar, and the toolbar's size.
//! Coordinates are physical pixels: monitor origins may be negative and
//! displays may mix DPI.
use vstd::prelude::*;

verus! {

/// A rectangle in physical pixels.
#[derive(Clone, Copy, Debug)]
pub struct Rect {
    pub x: i32,
    pub y: i32,
    pub w: i32,
    pub h: i32,
}

/// The four places tried for a `width` x `height` panel next to the toolbar,
/// in order of preference: beside a vertical toolbar, above or below a
/// horizontal one.
pub open spec fn candidates(toolbar: Rect, width: int, height: int, gap: int) -> Seq<(int, int)> {
    let right = (toolbar.x + toolbar.w + gap, toolbar.y as int);
    let left = (toolbar.x - width - gap, toolbar.y as int);
    let below = (toolbar.x as int, toolbar.y + toolbar.h + gap);
    let above = (toolbar.x as int, toolbar.y - height - gap);
    if toolbar.h > toolbar.w {
        seq![right, left, below, above]
    } else {
        seq![below, above, right, left]
    }
}

/// A panel placed at `p` lies wholly inside `area`.
pub open spec fn fits(p: (int, int), area: Rect, width: int, height: int) -> bool {
    &&& p.0 >= area.x
    &&& p.1 >= area.y
    &&& p.0 + width <= area.x + area.w
    &&& p.1 + height <= area.y + area.h
}

/// The first candidate that fits, or the preferred one when none does.
pub open spec fn chosen(toolbar: Rect, area: Rect, width: int, height: int, gap: int) -> (int, int) {
    let c = candidates(toolbar, width, height, gap);
    if fits(c[0], area, width, height) {
        c[0]
    } else if fits(c[1], area, width, height) {
        c[1]
    } else if fits(c[2], area, width, height) {
        c[2]
    } else if fits(c[3], area, width, height) {
        c[3]
    } else {
        c[0]
    }
}

pub open spec fn clamp(v: int, lo: int, hi: int) -> int {
    if v < lo {
        lo
    } else if v > hi {
        hi
    } else {
        v
    }
}

pub open spec fn max(a: int, b: int) -> int {
    if a >= b {
        a
    } else {
        b
    }
}

/// Where the panel goes: the chosen place, pulled inside the area.
pub open spec fn docked(toolbar: Rect, area: Rect, width: int, height: int, gap: int) -> (int, int) {
    let p = chosen(toolbar, area, width, height, gap);
    (
        clamp(p.0, area.x as int, max(area.x + area.w - width, area.x as int)),
        clamp(p.1, area.y as int, max(area.y + area.h - height, area.y as int)),
    )
}

pub open spec fn in_i32(v: int) -> bool {
    i32::MIN <= v <= i32::MAX
}

/// Every sum that the placement computes fits in an `i32`.
pub open spec fn placement_in_range(toolbar: Rect, area: Rect, width: int, height: int, gap: int) -> bool {
    &&& in_i32(toolbar.x + toolbar.w)
    &&& in_i32(toolbar.x + toolbar.w + gap)
    &&& in_i32(toolbar.x - width)
    &&& in_i32(toolbar.x - width - gap)
    &&& in_i32(toolbar.y + toolbar.h)
    &&& in_i32(toolbar.y + toolbar.h + gap)
    &&& in_i32(toolbar.y - height)
    &&& in_i32(toolbar.y - height - gap)
    &&& in_i32(area.x + area.w)
    &&& in_i32(area.y + area.h)
    &&& in_i32(area.x + area.w - width)
    &&& in_i32(area.y + area.h - height)
    &&& forall|i: int|
        0 <= i < 4 ==> in_i32(#[trigger] candidates(toolbar, width, height, gap)[i].0 + width)
            && in_i32(candidates(toolbar, width, height, gap)[i].1 + height)
}

fn fits_exec(p: (i32, i32), area: Rect, width: i32, height: i32) -> (r: bool)
    requires
        in_i32(p.0 + width),
        in_i32(p.1 + height),
        in_i32(area.x + area.w),
        in_i32(area.y + area.h),
    ensures
        r == fits((p.0 as int, p.1 as int), area, width as int, height as int),
{
    p.0 >= area.x && p.1 >= area.y && p.0 + width <= area.x + area.w && p.1 + height <= area.y
        + area.h
}

fn clamp_exec(v: i32, lo: i32, hi: i32) -> (r: i32)
    ensures
        r == clamp(v as int, lo as int, hi as int),
{
    if v < lo {
        lo
    } else if v > hi {
        hi
    } else {
        v
    }
}

fn in_i32_exec(v: i64) -> (r: bool)
    ensures
        r == in_i32(v as int),
{
    -2147483648i64 <= v && v <= 2147483647i64
}

/// Whether `position` can place this panel without any sum leaving `i32`.
pub fn placement_fits(toolbar: Rect, area: Rect, width: i32, height: i32, gap: i32) -> (r: bool)
    ensures
        r == placement_in_range(toolbar, area, width as int, height as int, gap as int),
{
    let (tx, ty, tw, th) = (toolbar.x as i64, toolbar.y as i64, toolbar.w as i64, toolbar.h as i64);
    let (ax, ay, aw, ah) = (area.x as i64, area.y as i64, area.w as i64, area.h as i64);
    let (w, h, g) = (width as i64, height as i64, gap as i64);
    let ghost c = candidates(toolbar, width as int, height as int, gap as int);
    let right = (tx + tw + g, ty);
    let left = (tx - w - g, ty);
    let below = (tx, ty + th + g);
    let above = (tx, ty - h - g);
    let all = in_i32_exec(tx + tw) && in_i32_exec(tx + tw + g) && in_i32_exec(tx - w) && in_i32_exec(tx - w - g)
        && in_i32_exec(ty + th) && in_i32_exec(ty + th + g) && in_i32_exec(ty - h) && in_i32_exec(ty - h - g)
        && in_i32_exec(ax + aw) && in_i32_exec(ay + ah) && in_i32_exec(ax + aw - w) && in_i32_exec(ay + ah - h)
        && in_i32_exec(right.0 + w) && in_i32_exec(right.1 + h) && in_i32_exec(left.0 + w) && in_i32_exec(left.1 + h)
        && in_i32_exec(below.0 + w) && in_i32_exec(below.1 + h) && in_i32_exec(above.0 + w) && in_i32_exec(above.1 + h);
    proof {
        assert(c.len() == 4);
        if all {
            assert forall|i: int| 0 <= i < 4 implies in_i32(#[trigger] c[i].0 + width) && in_i32(c[i].1 + height) by {
            }
        } else if in_i32(tx + tw) && in_i32(tx + tw + g) && in_i32(tx - w) && in_i32(tx - w - g) && in_i32(ty + th)
            && in_i32(ty + th + g) && in_i32(ty - h) && in_i32(ty - h - g) && in_i32(ax + aw) && in_i32(ay + ah)
            && in_i32(ax + aw - w) && in_i32(ay + ah - h) {
            if toolbar.h > toolbar.w {
                assert(c[0] == (right.0 as int, right.1 as int));
                assert(c[1] == (left.0 as int, left.1 as int));
                assert(c[2] == (below.0 as int, below.1 as int));
                assert(c[3] == (above.0 as int, above.1 as int));
            } else {
                assert(c[0] == (below.0 as int, below.1 as int));
                assert(c[1] == (above.0 as int, above.1 as int));
                assert(c[2] == (right.0 as int, right.1 as int));
                assert(c[3] == (left.0 as int, left.1 as int));
            }
        }
    }
    all
}

/// Places a `width` x `height` panel beside the toolbar inside `area`,
/// separated from the toolbar by `gap`.
pub fn position(toolbar: Rect, area: Rect, width: i32, height: i32, gap: i32) -> (r: (i32, i32))
    requires
        placement_in_range(toolbar, area, width as int, height as int, gap as int),
    ensures
        (r.0 as int, r.1 as int) == docked(toolbar, area, width as int, height as int, gap as int),
        // A panel that fits in the area is placed wholly inside it.
        width <= area.w && height <= area.h ==> fits(
            (r.0 as int, r.1 as int),
            area,
            width as int,
            height as int,
        ),
        // A place that fits is used as it is.
        fits(
            chosen(toolbar, area, width as int, height as int, gap as int),
            area,
            width as int,
            height as int,
        ) ==> (r.0 as int, r.1 as int) == chosen(
            toolbar,
            area,
            width as int,
            height as int,
            gap as int,
        ),
{
    let ghost cs = candidates(toolbar, width as int, height as int, gap as int);
    let right = (toolbar.x + toolbar.w + gap, toolbar.y);
    let left = (toolbar.x - width - gap, toolbar.y);
    let below = (toolbar.x, toolbar.y + toolbar.h + gap);
    let above = (toolbar.x, toolbar.y - height - gap);
    let choices = if toolbar.h > toolbar.w {
        [right, left, below, above]
    } else {
        [below, above, right, left]
    };
    proof {
        assert forall|i: int| 0 <= i < 4 implies (choices@[i].0 as int, choices@[i].1 as int)
            == #[trigger] cs[i] by {}
        assert(in_i32(cs[0].0 + width) && in_i32(cs[0].1 + height));
        assert(in_i32(cs[1].0 + width) && in_i32(cs[1].1 + height));
        assert(in_i32(cs[2].0 + width) && in_i32(cs[2].1 + height));
        assert(in_i32(cs[3].0 + width) && in_i32(cs[3].1 + height));
    }
    let (x, y) = if fits_exec(choices[0], area, width, height) {
        choices[0]
    } else if fits_exec(choices[1], area, width, height) {
        choices[1]
    } else if fits_exec(choices[2], area, width, height) {
        choices[2]
    } else if fits_exec(choices[3], area, width, height) {
        choices[3]
    } else {
        choices[0]
    };
    let hx = area.x + area.w - width;
    let hy = area.y + area.h - height;
    let max_x = if hx >= area.x {
        hx
    } else {
        area.x
    };
    let max_y = if hy >= area.y {
        hy
    } else {
        area.y
    };
    (clamp_exec(x, area.x, max_x), clamp_exec(y, area.y, max_y))
}

/// Toolbar buttons beyond this count are not given room.
pub const TOOLBAR_ITEM_LIMIT: usize = 18;

/// Length of a toolbar strip holding `item_count` buttons: 36 px buttons with
/// 2 px gaps, plus 210 px for the grip, the padding and four fixed controls.
pub open spec fn strip_length(item_count: nat) -> nat {
    let n = if item_count < TOOLBAR_ITEM_LIMIT {
        item_count
    } else {
        TOOLBAR_ITEM_LIMIT as nat
    };
    n * 38 + 210
}

/// The toolbar's size in logical pixels, `(width, height)`: a single strip,
/// 64 px across.
pub fn toolbar_size(vertical: bool, item_count: usize) -> (r: (u32, u32))
    ensures
        vertical ==> r == (64u32, strip_length(item_count as nat) as u32),
        !vertical ==> r == (strip_length(item_count as nat) as u32, 64u32),
        strip_length(item_count as nat) <= 894,
{
    let n = if item_count < TOOLBAR_ITEM_LIMIT {
        item_count
    } else {
        TOOLBAR_ITEM_LIMIT
    };
    let length = (n as u32) * 38 + 210;
    if vertical {
        (64, length)
    } else {
        (length, 64)
    }
}

/// The toolbar's size with its settings panel open or closed: the panel adds
/// 280 px across the strip, and a horizontal strip is at least 280 px long
/// while the panel is open.
pub fn toolbar_panel_size(vertical: bool, open: bool, item_count: usize) -> (r: (u32, u32))
    ensures
        ({
            let len = strip_length(item_count as nat);
            let extra: nat = if open {
                280
            } else {
                0
            };
            if vertical {
                r == ((64 + extra) as u32, len as u32)
            } else {
                r == (
                    (if open && len < 280 {
                        280
                    } else {
                        len
                    }) as u32,
                    (64 + extra) as u32,
                )
            }
        }),
{
    let (width, height) = toolbar_size(vertical, item_count);
    let extra: u32 = if open {
        280
    } else {
        0
    };
    if vertical {
        (width + extra, height)
    } else {
        (
            if open && width < 280 {
                280
            } else {
                width
            },
            height + extra,
        )
    }
}

} // verus!
