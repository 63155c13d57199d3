use vstd::prelude::*;

use crate::strings::{ascii_upper, chars_of, is_ascii_alnum, is_ascii_alphanumeric, to_ascii_upper_char};

verus! {

/// The index of the first ASCII letter or digit of `s`, from `i` on.
pub open spec fn first_alnum_from(s: Seq<char>, i: int) -> Option<int>
    decreases s.len() - i,
{
    if i < 0 || i >= s.len() {
        None
    } else if is_ascii_alnum(s[i]) {
        Some(i)
    } else {
        first_alnum_from(s, i + 1)
    }
}

/// The letter drawn for a node without an icon: the first ASCII letter or
/// digit of its application id (of `fallback` when it has none),
/// uppercased.
pub open spec fn glyph_spec(app_id: Option<Seq<char>>, fallback: Seq<char>) -> Option<char> {
    let s = match app_id {
        Some(a) => a,
        None => fallback,
    };
    match first_alnum_from(s, 0) {
        Some(i) => Some(ascii_upper(s[i])),
        None => None,
    }
}

proof fn lemma_first_alnum(s: Seq<char>, i: int)
    requires
        0 <= i,
    ensures
        first_alnum_from(s, i) matches Some(k) ==> i <= k < s.len(),
    decreases s.len() - i,
{
    if i < s.len() && !is_ascii_alnum(s[i]) {
        lemma_first_alnum(s, i + 1);
    }
}

pub fn node_icon_glyph(app_id: Option<&str>, fallback: &str) -> (r: Option<char>)
    ensures
        r == glyph_spec(
            match app_id {
                Some(a) => Some(a@),
                None => None,
            },
            fallback@,
        ),
{
    let s: Vec<char> = match app_id {
        Some(a) => chars_of(a),
        None => chars_of(fallback),
    };
    let mut i: usize = 0;
    while i < s.len()
        invariant
            i <= s@.len(),
            s@ == match app_id {
                Some(a) => a@,
                None => fallback@,
            },
            first_alnum_from(s@, 0) == first_alnum_from(s@, i as int),
        decreases s.len() - i,
    {
        if is_ascii_alphanumeric(s[i]) {
            return Some(to_ascii_upper_char(s[i]));
        }
        i = i + 1;
    }
    None
}

// ---------------------------------------------------------------------------
// Hover preview placement
// ---------------------------------------------------------------------------

/// The side of a hover preview before its grow animation: the larger
/// side of the window (at least a pixel) with a 10-pixel inset each way,
/// held to `120..=max_side`.
pub open spec fn preview_base_side_spec(bbox_w: i32, bbox_h: i32, max_side: i32) -> int {
    let source = if bbox_w >= bbox_h {
        bbox_w as int
    } else {
        bbox_h as int
    };
    let source = if source < 1 {
        1
    } else {
        source
    };
    let side = source + 20;
    if side < 120 {
        120
    } else if side > max_side {
        max_side as int
    } else {
        side
    }
}

pub fn preview_base_side(bbox_w: i32, bbox_h: i32, max_side: i32) -> (r: i32)
    requires
        120 <= max_side,
        bbox_w <= i32::MAX - 20,
        bbox_h <= i32::MAX - 20,
    ensures
        r == preview_base_side_spec(bbox_w, bbox_h, max_side),
{
    let larger: i32 = if bbox_w >= bbox_h {
        bbox_w
    } else {
        bbox_h
    };
    let source: i32 = if larger < 1 {
        1
    } else {
        larger
    };
    let side: i32 = source + 20;
    if side < 120 {
        120
    } else if side > max_side {
        max_side
    } else {
        side
    }
}

/// `v` held to `lo..=hi` (`hi` at least `lo`).
pub open spec fn clamp_i(v: int, lo: int, hi: int) -> int {
    if v < lo {
        lo
    } else if v > hi {
        hi
    } else {
        v
    }
}

/// Where a `side` x `side` hover preview goes: centred on the marker box
/// `bounds`, kept 10 pixels inside the `screen` where it fits, else
/// against its top-left margin.
pub open spec fn preview_origin_spec(
    bounds: (i32, i32, i32, i32),
    side: i32,
    screen: (i32, i32),
) -> (int, int) {
    let ax = bounds.0 + half_i(bounds.2 as int);
    let ay = bounds.1 + half_i(bounds.3 as int);
    let max_x = if screen.0 - side - 10 < 10 {
        10
    } else {
        screen.0 - side - 10
    };
    let max_y = if screen.1 - side - 10 < 10 {
        10
    } else {
        screen.1 - side - 10
    };
    (clamp_i(ax - half_i(side as int), 10, max_x), clamp_i(ay - half_i(side as int), 10, max_y))
}

/// `v / 2` rounded toward zero.
pub open spec fn half_i(v: int) -> int {
    if v >= 0 {
        v / 2
    } else {
        -((-v) / 2)
    }
}

pub fn hover_preview_origin(bounds: (i32, i32, i32, i32), side: i32, screen: (i32, i32)) -> (r: (
    i32,
    i32,
))
    requires
        i32::MIN <= bounds.0 + half_i(bounds.2 as int) - half_i(side as int) <= i32::MAX,
        i32::MIN <= bounds.1 + half_i(bounds.3 as int) - half_i(side as int) <= i32::MAX,
        i32::MIN <= bounds.0 + half_i(bounds.2 as int) <= i32::MAX,
        i32::MIN <= bounds.1 + half_i(bounds.3 as int) <= i32::MAX,
        i32::MIN <= screen.0 - side - 10 <= i32::MAX,
        i32::MIN <= screen.1 - side - 10 <= i32::MAX,
        i32::MIN <= screen.0 - side <= i32::MAX,
        i32::MIN <= screen.1 - side <= i32::MAX,
    ensures
        (r.0 as int, r.1 as int) == preview_origin_spec(bounds, side, screen),
{
    let ax: i32 = bounds.0 + bounds.2 / 2;
    let ay: i32 = bounds.1 + bounds.3 / 2;
    let px: i32 = ax - side / 2;
    let py: i32 = ay - side / 2;
    let mx0: i32 = screen.0 - side - 10;
    let my0: i32 = screen.1 - side - 10;
    let max_x: i32 = if mx0 < 10 {
        10
    } else {
        mx0
    };
    let max_y: i32 = if my0 < 10 {
        10
    } else {
        my0
    };
    let x: i32 = if px < 10 {
        10
    } else if px > max_x {
        max_x
    } else {
        px
    };
    let y: i32 = if py < 10 {
        10
    } else if py > max_y {
        max_y
    } else {
        py
    };
    (x, y)
}

} // verus!
