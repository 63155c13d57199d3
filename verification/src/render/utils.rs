use vstd::prelude::*;

use crate::render::bearings::half;
use crate::render::frame::fits_i32;

verus! {

pub open spec fn max_i(a: int, b: int) -> int {
    if a < b {
        b
    } else {
        a
    }
}

/// The metrics of a collapsed node's marker: the dot's half size, the gap
/// to the label, the label's width for `label_len` characters (9.5 pixels
/// a character, rounded, held to 72..=420) and the label's height.
pub open spec fn label_width_spec(label_len: nat) -> int {
    let w: int = ((19 * label_len + 1) / 2) as int;
    if w < 72 {
        72
    } else if w > 420 {
        420
    } else {
        w
    }
}

pub fn node_marker_metrics(label_len: usize) -> (r: (i32, i32, i32, i32))
    ensures
        r == (17i32, 14i32, label_width_spec(label_len as nat) as i32, 26i32),
{
    let w: usize = if label_len > 100 {
        420
    } else {
        (19 * label_len + 1) / 2
    };
    let label_w: i32 = if w < 72 {
        72
    } else if w > 420 {
        420
    } else {
        w as i32
    };
    (17, 14, label_w, 26)
}

/// The width and height of a marker's content: the dot (at least a pixel)
/// and, to its right, the gap and the label (each at least zero).
pub open spec fn marker_content(dot_half: i32, label_gap: i32, label_w: i32, label_h: i32) -> (
    int,
    int,
) {
    let dot_d = max_i(dot_half * 2, 1);
    (
        max_i(dot_d + max_i(label_gap as int, 0) + max_i(label_w as int, 0), dot_d),
        max_i(max_i(dot_d, label_h as int), 1),
    )
}

/// Every step of the marker arithmetic stays within `i32`, the horizontal
/// start being `x_start` (the centre minus the dot's half size or minus
/// half the content width).
pub open spec fn marker_arith_fits(
    x_start: int,
    cy: i32,
    dot_half: i32,
    label_gap: i32,
    label_w: i32,
    label_h: i32,
    pad: i32,
) -> bool {
    let p = max_i(pad as int, 0);
    let dot_d = max_i(dot_half * 2, 1);
    let (cw, ch) = marker_content(dot_half, label_gap, label_w, label_h);
    &&& fits_i32(dot_half * 2)
    &&& fits_i32(dot_d + max_i(label_gap as int, 0))
    &&& fits_i32(dot_d + max_i(label_gap as int, 0) + max_i(label_w as int, 0))
    &&& fits_i32(x_start)
    &&& fits_i32(x_start - p)
    &&& fits_i32(cy - half(ch))
    &&& fits_i32(cy - half(ch) - p)
    &&& fits_i32(p * 2)
    &&& fits_i32(cw + p * 2)
    &&& fits_i32(ch + p * 2)
}

/// The box around a node marker: the dot at `(cx, cy)` with the label to
/// its right, padded by `pad` (at least zero) and at least 8 pixels each
/// way.
pub open spec fn marker_bounds_spec(
    cx: i32,
    cy: i32,
    dot_half: i32,
    label_gap: i32,
    label_w: i32,
    label_h: i32,
    pad: i32,
) -> (int, int, int, int) {
    let p = max_i(pad as int, 0);
    let (content_w, content_h) = marker_content(dot_half, label_gap, label_w, label_h);
    (
        cx - dot_half - p,
        cy - half(content_h) - p,
        max_i(content_w + p * 2, 8),
        max_i(content_h + p * 2, 8),
    )
}

/// The bounds a node marker is hit-tested and damaged with.
pub fn node_marker_bounds(
    cx: i32,
    cy: i32,
    dot_half: i32,
    label_gap: i32,
    label_w: i32,
    label_h: i32,
    pad: i32,
) -> (r: (i32, i32, i32, i32))
    requires
        marker_arith_fits(cx - dot_half, cy, dot_half, label_gap, label_w, label_h, pad),
    ensures
        (r.0 as int, r.1 as int, r.2 as int, r.3 as int) == marker_bounds_spec(
            cx,
            cy,
            dot_half,
            label_gap,
            label_w,
            label_h,
            pad,
        ),
{
    let p: i32 = if pad < 0 {
        0
    } else {
        pad
    };
    let dot_d: i32 = if dot_half * 2 < 1 {
        1
    } else {
        dot_half * 2
    };
    let gap: i32 = if label_gap < 0 {
        0
    } else {
        label_gap
    };
    let lw: i32 = if label_w < 0 {
        0
    } else {
        label_w
    };
    let cw0: i32 = dot_d + gap + lw;
    let content_w: i32 = if cw0 < dot_d {
        dot_d
    } else {
        cw0
    };
    let ch0: i32 = if dot_d < label_h {
        label_h
    } else {
        dot_d
    };
    let content_h: i32 = if ch0 < 1 {
        1
    } else {
        ch0
    };
    let x0: i32 = cx - dot_half - p;
    let y0: i32 = cy - (content_h / 2) - p;
    let w0: i32 = content_w + p * 2;
    let h0: i32 = content_h + p * 2;
    (x0, y0, if w0 < 8 {
        8
    } else {
        w0
    }, if h0 < 8 {
        8
    } else {
        h0
    })
}

/// The four 2-pixel strips of an outline (top, bottom, left, right);
/// none for a rectangle too small to outline.
pub open spec fn outline_strips_spec(x: i32, y: i32, w: i32, h: i32) -> Seq<(int, int, int, int)> {
    if w <= 1 || h <= 1 {
        Seq::empty()
    } else {
        seq![(x as int, y as int, w as int, 2), (x as int, y + h - 2, w as int, 2), (x as int, y as int, 2, h as int), (x + w - 2, y as int, 2, h as int)]
    }
}

pub fn outline_rect_strips(x: i32, y: i32, w: i32, h: i32) -> (r: Vec<(i32, i32, i32, i32)>)
    requires
        w > 1 && h > 1 ==> fits_i32(y + h) && fits_i32(y + h - 2) && fits_i32(x + w) && fits_i32(
            x + w - 2,
        ),
    ensures
        r@.map_values(|s: (i32, i32, i32, i32)| (s.0 as int, s.1 as int, s.2 as int, s.3 as int))
            == outline_strips_spec(x, y, w, h),
{
    let mut r: Vec<(i32, i32, i32, i32)> = Vec::new();
    if w <= 1 || h <= 1 {
        proof {
            assert(r@.map_values(
                |s: (i32, i32, i32, i32)| (s.0 as int, s.1 as int, s.2 as int, s.3 as int),
            ) =~= Seq::<(int, int, int, int)>::empty());
        }
        return r;
    }
    r.push((x, y, w, 2));
    r.push((x, y + h - 2, w, 2));
    r.push((x, y, 2, h));
    r.push((x + w - 2, y, 2, h));
    proof {
        assert(r@.map_values(
            |s: (i32, i32, i32, i32)| (s.0 as int, s.1 as int, s.2 as int, s.3 as int),
        ) =~= outline_strips_spec(x, y, w, h));
    }
    r
}

} // verus!
